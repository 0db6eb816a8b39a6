//! Behaviour of the composed pipeline: ordering, short-circuiting,
//! fail-fast, and transport error mapping.

use reqwest_middleware::{
    BagValue, ClientBuilder, Error, Event, Method, Middleware, Response, SendStep, TransportError,
};

fn ok_response() -> Response {
    Response { status: 200, headers: Vec::new(), body: Vec::new() }
}

fn complete(step: SendStep) -> reqwest_middleware::SendReport {
    match step {
        SendStep::Complete(report) => report,
        SendStep::AwaitingTransport(_, _) => panic!("expected a completed invocation"),
    }
}

fn run_to_report(
    client: &reqwest_middleware::ClientWithMiddleware,
    rb: reqwest_middleware::RequestBuilder,
    outcome: Result<Response, TransportError>,
) -> reqwest_middleware::SendReport {
    match rb.send(client) {
        SendStep::Complete(report) => report,
        SendStep::AwaitingTransport(_, in_flight) => in_flight.finish(outcome),
    }
}

#[test]
fn empty_chain_behaves_as_transport_alone() {
    let client = ClientBuilder::new().build();
    let rb = client.get("http://example.test/a".to_string());
    let report = run_to_report(&client, rb, Ok(ok_response()));
    assert_eq!(report.trace, vec![Event::Transport]);
    match report.result {
        Ok(resp) => assert_eq!(resp.status, 200),
        Err(_) => panic!("empty chain must pass the transport result through"),
    }
}

#[test]
fn entry_order_matches_registration_order() {
    let client = ClientBuilder::new()
        .with(Middleware::Transparent)
        .with(Middleware::Transparent)
        .with(Middleware::Transparent)
        .build();
    let rb = client.get("http://example.test/a".to_string());
    let report = run_to_report(&client, rb, Ok(ok_response()));
    assert_eq!(
        report.trace,
        vec![
            Event::Enter { index: 0 },
            Event::Enter { index: 1 },
            Event::Enter { index: 2 },
            Event::Transport,
            Event::Exit { index: 2 },
            Event::Exit { index: 1 },
            Event::Exit { index: 0 },
        ]
    );
}

#[test]
fn counter_scenario_two_units() {
    // Two delegating units A and B: entering increments a counter,
    // exiting decrements it. The observed sequence must be
    // +1 (A), +1 (B), transport, -1 (B), -1 (A), ending at 0.
    let client = ClientBuilder::new()
        .with(Middleware::Transparent)
        .with(Middleware::Transparent)
        .build();
    let rb = client.get("http://example.test/a".to_string());
    let report = run_to_report(&client, rb, Ok(ok_response()));

    let mut counter: i64 = 0;
    let mut story: Vec<(i64, Event)> = Vec::new();
    for event in report.trace.iter() {
        match event {
            Event::Enter { .. } => counter += 1,
            Event::Exit { .. } => counter -= 1,
            _ => {}
        }
        story.push((counter, *event));
    }
    assert_eq!(
        story,
        vec![
            (1, Event::Enter { index: 0 }),
            (2, Event::Enter { index: 1 }),
            (2, Event::Transport),
            (1, Event::Exit { index: 1 }),
            (0, Event::Exit { index: 0 }),
        ]
    );
    assert_eq!(counter, 0);
}

#[test]
fn middleware_error_short_circuits_inner_stages() {
    let client = ClientBuilder::new()
        .with(Middleware::Transparent)
        .with(Middleware::Fail { code: 7 })
        .with(Middleware::Transparent)
        .build();
    let rb = client.get("http://example.test/a".to_string());
    let report = complete(rb.send(&client));
    assert_eq!(report.result, Err(Error::Middleware { code: 7 }));
    // The transport unit and the inner unit record zero invocations;
    // the outer unit still sees the error on the way out.
    assert_eq!(
        report.trace,
        vec![
            Event::Enter { index: 0 },
            Event::Enter { index: 1 },
            Event::Exit { index: 1 },
            Event::Exit { index: 0 },
        ]
    );
}

#[test]
fn outermost_failure_leaves_a_minimal_trace() {
    let client = ClientBuilder::new()
        .with(Middleware::Fail { code: 1 })
        .with(Middleware::Transparent)
        .build();
    let rb = client.get("http://example.test/a".to_string());
    let report = complete(rb.send(&client));
    assert_eq!(report.result, Err(Error::Middleware { code: 1 }));
    assert_eq!(report.trace, vec![Event::Enter { index: 0 }, Event::Exit { index: 0 }]);
}

#[test]
fn build_error_fails_fast_with_zero_invocations() {
    let client = ClientBuilder::new().with(Middleware::Transparent).build();
    let rb = client
        .get("http://example.test/a".to_string())
        .header("bad name".to_string(), "x".to_string());
    let report = complete(rb.send(&client));
    assert!(matches!(
        report.result,
        Err(Error::Build(reqwest_middleware::BuildError::InvalidHeaderName { index: 0 }))
    ));
    // No middleware ran: zero events were recorded.
    assert_eq!(report.trace, Vec::new());
}

#[test]
fn invalid_header_value_is_a_build_error() {
    let client = ClientBuilder::new().build();
    let rb = client
        .get("http://example.test/a".to_string())
        .header("accept".to_string(), "line\nbreak".to_string());
    let report = complete(rb.send(&client));
    assert_eq!(
        report.result,
        Err(Error::Build(reqwest_middleware::BuildError::InvalidHeaderValue { index: 0 }))
    );
}

#[test]
fn initialiser_rejection_surfaces_as_build_error() {
    // An initialiser that attaches an invalid default header poisons the
    // builder; the failure surfaces at materialisation, before any
    // middleware runs.
    let client = ClientBuilder::new()
        .with(Middleware::Transparent)
        .with_init(reqwest_middleware::Initialiser::DefaultHeader {
            name: "".to_string(),
            value: "x".to_string(),
        })
        .build();
    let rb = client.get("http://example.test/a".to_string());
    let report = complete(rb.send(&client));
    assert!(matches!(report.result, Err(Error::Build(_))));
    assert_eq!(report.trace, Vec::new());
}

#[test]
fn transport_error_flows_back_out() {
    let client = ClientBuilder::new()
        .with(Middleware::Transparent)
        .with(Middleware::Transparent)
        .build();
    let rb = client.get("http://example.test/a".to_string());
    let report = run_to_report(&client, rb, Err(TransportError::TimedOut));
    assert_eq!(report.result, Err(Error::Transport(TransportError::TimedOut)));
    // Every still-active outer stage observed the failure on the way out.
    assert_eq!(
        report.trace,
        vec![
            Event::Enter { index: 0 },
            Event::Enter { index: 1 },
            Event::Transport,
            Event::Exit { index: 1 },
            Event::Exit { index: 0 },
        ]
    );
}

#[test]
fn registration_order_decides_who_sees_a_seed() {
    // A seeds the bag, B observes it: B runs inside A and finds the key.
    let client = ClientBuilder::new()
        .with(Middleware::SeedBag { key: 5, value: BagValue::Int(1) })
        .with(Middleware::ObserveBag { key: 5 })
        .build();
    let rb = client.get("http://example.test/a".to_string());
    let report = run_to_report(&client, rb, Ok(ok_response()));
    assert!(report.trace.contains(&Event::Observed { index: 1, found: true }));

    // Registered the other way round, the observer runs outside the
    // seeder and the key is not there yet.
    let client = ClientBuilder::new()
        .with(Middleware::ObserveBag { key: 5 })
        .with(Middleware::SeedBag { key: 5, value: BagValue::Int(1) })
        .build();
    let rb = client.get("http://example.test/a".to_string());
    let report = run_to_report(&client, rb, Ok(ok_response()));
    assert!(report.trace.contains(&Event::Observed { index: 0, found: false }));
}

#[test]
fn invoke_runs_both_phases_at_once() {
    let client = ClientBuilder::new()
        .with(Middleware::Transparent)
        .build();
    let rb = client.get("http://example.test/a".to_string());
    let report = rb.invoke(&client, Ok(ok_response()));
    assert_eq!(
        report.trace,
        vec![Event::Enter { index: 0 }, Event::Transport, Event::Exit { index: 0 }]
    );
    assert!(report.result.is_ok());
}

#[test]
fn initialiser_seed_is_visible_to_every_unit() {
    let client = ClientBuilder::new()
        .with(Middleware::ObserveBag { key: 7 })
        .with(Middleware::Transparent)
        .with(Middleware::ObserveBag { key: 7 })
        .with_init(reqwest_middleware::Initialiser::SeedBag {
            key: 7,
            value: BagValue::Int(42),
        })
        .build();
    let rb = client.get("http://example.test/a".to_string());
    let report = run_to_report(&client, rb, Ok(ok_response()));
    assert!(report.trace.contains(&Event::Observed { index: 0, found: true }));
    assert!(report.trace.contains(&Event::Observed { index: 2, found: true }));
    // The value survives the whole invocation, unmodified.
    assert_eq!(report.extensions.get(7), Some(&BagValue::Int(42)));
}

#[test]
fn transport_receives_the_materialised_request() {
    let client = ClientBuilder::new()
        .with(Middleware::Transparent)
        .with_init(reqwest_middleware::Initialiser::DefaultHeader {
            name: "user-agent".to_string(),
            value: "pipeline".to_string(),
        })
        .build();
    let rb = client
        .post("http://example.test/items".to_string())
        .bearer_auth("tok".to_string())
        .timeout(100);
    match rb.send(&client) {
        SendStep::AwaitingTransport(request, _) => {
            assert_eq!(request.method, Method::Post);
            assert_eq!(request.url, "http://example.test/items");
            assert_eq!(request.headers[0].name, "user-agent");
            assert_eq!(request.headers[1].value, "Bearer tok");
            assert_eq!(request.timeout_ms, Some(100));
        }
        SendStep::Complete(report) => panic!("expected a transport hand-off, got {:?}", report.result),
    }
}

#[test]
fn default_client_has_no_middleware() {
    let client = reqwest_middleware::ClientWithMiddleware::default();
    let rb = client.get("http://example.test".to_string());
    let report = run_to_report(&client, rb, Ok(ok_response()));
    assert_eq!(report.trace, vec![Event::Transport]);
}

#[test]
fn request_method_helpers_set_the_method() {
    let client = ClientBuilder::new().build();
    assert_eq!(client.get("http://example.test".to_string()).method, Method::Get);
    assert_eq!(client.post("http://example.test".to_string()).method, Method::Post);
    assert_eq!(client.put("http://example.test".to_string()).method, Method::Put);
    assert_eq!(client.patch("http://example.test".to_string()).method, Method::Patch);
    assert_eq!(client.delete("http://example.test".to_string()).method, Method::Delete);
    assert_eq!(client.head("http://example.test".to_string()).method, Method::Head);
}
