//! The context bag, the fluent builder surface, materialisation, and
//! clone semantics.

use reqwest_middleware::{
    BagValue, Body, BuildError, ClientBuilder, ContextBag, Header, Initialiser, Method,
};

#[test]
fn bag_insert_and_get() {
    let mut bag = ContextBag::new();
    assert!(bag.get(1).is_none());
    bag.insert(1, BagValue::Int(5));
    assert_eq!(bag.get(1), Some(&BagValue::Int(5)));
    assert!(bag.contains(1));
    assert!(!bag.contains(2));
}

#[test]
fn bag_insert_overwrites_one_slot_per_key() {
    let mut bag = ContextBag::new();
    bag.insert(9, BagValue::Int(1));
    bag.insert(9, BagValue::Flag(true));
    assert_eq!(bag.get(9), Some(&BagValue::Flag(true)));
}

#[test]
fn builder_accumulates_headers_and_fields() {
    let client = ClientBuilder::new().build();
    let rb = client
        .request(Method::Post, "http://example.test/items".to_string())
        .header("accept".to_string(), "text/plain".to_string())
        .timeout(250)
        .body(Body::Buffered(vec![1, 2, 3]));
    let req = rb.build().expect("all headers are valid");
    assert_eq!(req.method, Method::Post);
    assert_eq!(req.url, "http://example.test/items");
    assert_eq!(
        req.headers,
        vec![Header { name: "accept".to_string(), value: "text/plain".to_string() }]
    );
    assert_eq!(req.timeout_ms, Some(250));
    assert_eq!(req.body, Some(Body::Buffered(vec![1, 2, 3])));
}

#[test]
fn bearer_auth_formats_the_authorization_header() {
    let client = ClientBuilder::new().build();
    let req = client
        .get("http://example.test".to_string())
        .bearer_auth("sometoken".to_string())
        .build()
        .expect("valid");
    assert_eq!(
        req.headers,
        vec![Header { name: "authorization".to_string(), value: "Bearer sometoken".to_string() }]
    );
}

#[test]
fn basic_auth_encodes_the_credentials() {
    let client = ClientBuilder::new().build();
    let req = client
        .get("http://example.test".to_string())
        .basic_auth("aladdin".to_string(), Some("opensesame".to_string()))
        .build()
        .expect("valid");
    assert_eq!(
        req.headers,
        vec![Header {
            name: "authorization".to_string(),
            value: "Basic YWxhZGRpbjpvcGVuc2VzYW1l".to_string(),
        }]
    );

    let req = client
        .get("http://example.test".to_string())
        .basic_auth("aladdin".to_string(), None)
        .build()
        .expect("valid");
    assert_eq!(req.headers[0].value, "Basic YWxhZGRpbjo=");
}

#[test]
fn base64_matches_known_vectors() {
    assert_eq!(reqwest_middleware::encoding::base64_string(b""), "");
    assert_eq!(reqwest_middleware::encoding::base64_string(b"a"), "YQ==");
    assert_eq!(reqwest_middleware::encoding::base64_string(b"ab"), "YWI=");
    assert_eq!(reqwest_middleware::encoding::base64_string(b"abc"), "YWJj");
    assert_eq!(reqwest_middleware::encoding::base64_string(b"abcd"), "YWJjZA==");
    assert_eq!(
        reqwest_middleware::encoding::base64_string(b"Aladdin:open sesame"),
        "QWxhZGRpbjpvcGVuIHNlc2FtZQ=="
    );
}

#[test]
fn json_and_form_set_body_and_content_type() {
    let client = ClientBuilder::new().build();
    let req = client
        .post("http://example.test".to_string())
        .json(b"{\"a\":1}".to_vec())
        .build()
        .expect("valid");
    assert_eq!(req.headers[0].name, "content-type");
    assert_eq!(req.headers[0].value, "application/json");
    assert_eq!(req.body, Some(Body::Buffered(b"{\"a\":1}".to_vec())));

    let req = client
        .post("http://example.test".to_string())
        .form(b"a=1&b=2".to_vec())
        .build()
        .expect("valid");
    assert_eq!(req.headers[0].value, "application/x-www-form-urlencoded");
    assert_eq!(req.body, Some(Body::Buffered(b"a=1&b=2".to_vec())));
}

#[test]
fn query_pairs_accumulate_in_order() {
    let client = ClientBuilder::new().build();
    let req = client
        .get("http://example.test".to_string())
        .query(vec![("a".to_string(), "1".to_string())])
        .query(vec![("b".to_string(), "2".to_string())])
        .build()
        .expect("valid");
    assert_eq!(
        req.query,
        vec![("a".to_string(), "1".to_string()), ("b".to_string(), "2".to_string())]
    );
}

#[test]
fn build_reports_the_first_invalid_header() {
    let client = ClientBuilder::new().build();
    let r = client
        .get("http://example.test".to_string())
        .header("ok".to_string(), "fine".to_string())
        .header("not ok".to_string(), "x".to_string())
        .header("".to_string(), "y".to_string())
        .build();
    assert_eq!(r, Err(BuildError::InvalidHeaderName { index: 1 }));
}

#[test]
fn headers_list_setter_appends_in_order() {
    let client = ClientBuilder::new().build();
    let req = client
        .get("http://example.test".to_string())
        .header("a".to_string(), "1".to_string())
        .headers(vec![
            Header { name: "b".to_string(), value: "2".to_string() },
            Header { name: "c".to_string(), value: "3".to_string() },
        ])
        .build()
        .expect("valid");
    let names: Vec<&str> = req.headers.iter().map(|h| h.name.as_str()).collect();
    assert_eq!(names, vec!["a", "b", "c"]);
}

#[test]
fn initialiser_defaults_run_before_caller_mutations() {
    let client = ClientBuilder::new()
        .with_init(Initialiser::DefaultHeader {
            name: "user-agent".to_string(),
            value: "verified-pipeline".to_string(),
        })
        .build();
    let req = client
        .get("http://example.test".to_string())
        .header("accept".to_string(), "text/plain".to_string())
        .build()
        .expect("valid");
    assert_eq!(req.headers[0].name, "user-agent");
    assert_eq!(req.headers[1].name, "accept");
}

#[test]
fn initialiser_seeds_are_visible_in_the_builder_bag() {
    let client = ClientBuilder::new()
        .with_init(Initialiser::SeedBag { key: 7, value: BagValue::Int(42) })
        .build();
    let rb = client.get("http://example.test".to_string());
    assert_eq!(rb.extensions().get(7), Some(&BagValue::Int(42)));
}

#[test]
fn with_extension_inserts_into_the_bag() {
    let client = ClientBuilder::new().build();
    let rb = client
        .get("http://example.test".to_string())
        .with_extension(3, BagValue::Flag(true));
    assert_eq!(rb.extensions().get(3), Some(&BagValue::Flag(true)));
}

#[test]
fn try_clone_with_buffered_body_yields_independent_builder() {
    let client = ClientBuilder::new().build();
    let rb = client
        .post("http://example.test".to_string())
        .header("accept".to_string(), "text/plain".to_string())
        .body(Body::Buffered(vec![1, 2]))
        .with_extension(1, BagValue::Int(9));
    let clone = rb.try_clone().expect("a buffered body can be replayed");
    // The copy agrees on what the request will carry...
    assert_eq!(clone.method, rb.method);
    assert_eq!(clone.url, rb.url);
    assert_eq!(clone.headers, rb.headers);
    assert_eq!(clone.body, rb.body);
    // ...but extensions never survive a clone.
    assert!(clone.extensions().get(1).is_none());
    assert_eq!(rb.extensions().get(1), Some(&BagValue::Int(9)));
}

#[test]
fn try_clone_with_streaming_body_returns_nothing() {
    let client = ClientBuilder::new().build();
    let rb = client.post("http://example.test".to_string()).multipart();
    assert!(rb.try_clone().is_none());
}

#[test]
fn two_requests_never_share_a_bag() {
    let client = ClientBuilder::new().build();
    let first = client
        .get("http://example.test/a".to_string())
        .with_extension(1, BagValue::Int(1));
    let second = client.get("http://example.test/b".to_string());
    assert_eq!(first.extensions().get(1), Some(&BagValue::Int(1)));
    assert!(second.extensions().get(1).is_none());
}
