//! The pipeline orchestrator: registration, the fluent request builder,
//! and the two-phase invocation of the composed chain.
//!
//! One request progresses strictly forward: the initialiser chain runs when
//! the builder is created, the caller's builder mutations accumulate, the
//! request materialises (or fails fast with a build error before any
//! middleware runs), the outbound half of the middleware chain runs, the
//! caller performs the transport call, and `finish` walks the result back
//! out through every entered unit.

use vstd::prelude::*;
use vstd::string::StringExecFns;
use crate::bag::{BagValue, ContextBag};
use vstd::utf8::encode_utf8;
use crate::chain::{chain_effect, exit_run, map_transport, pre_spec, run_pre, transport_result};
use crate::encoding::{base64_of, base64_string};
use crate::error::{BuildError, Error, TransportError};
use crate::middleware::{Event, Initialiser, InitialiserStack, Middleware, MiddlewareStack};
use crate::request::{
    first_header_fault, header_views, lemma_header_views_push, pair_views, Body, Header,
    HeaderView, Method, Request, Response,
};

verus! {

broadcast use lemma_header_views_push;

/// Collects the middleware and initialiser registrations for a client.
///
/// Registration is pure construction: nothing runs and nothing can fail
/// until a request is sent.
#[derive(Debug)]
pub struct ClientBuilder {
    middleware_stack: MiddlewareStack,
    initialiser_stack: InitialiserStack,
}

impl ClientBuilder {
    /// The middleware registered so far, in registration order.
    pub closed spec fn middleware_registrations(&self) -> Seq<Middleware> {
        self.middleware_stack.registrations()
    }

    /// The initialisers registered so far, in registration order.
    pub closed spec fn initialiser_registrations(&self) -> Seq<Initialiser> {
        self.initialiser_stack.registrations()
    }

    /// A builder with nothing registered: both stacks are the identity.
    pub fn new() -> (builder: ClientBuilder)
        ensures
            builder.middleware_registrations() == Seq::<Middleware>::empty(),
            builder.initialiser_registrations() == Seq::<Initialiser>::empty(),
    {
        ClientBuilder {
            middleware_stack: MiddlewareStack::Identity,
            initialiser_stack: InitialiserStack::Identity,
        }
    }

    /// Attaches one middleware unit. The unit registered first stays
    /// outermost, whatever is registered after it.
    pub fn with(self, layer: Middleware) -> (builder: ClientBuilder)
        ensures
            builder.middleware_registrations() == self.middleware_registrations().push(layer),
            builder.initialiser_registrations() == self.initialiser_registrations(),
    {
        ClientBuilder {
            middleware_stack: self.middleware_stack.add(layer),
            initialiser_stack: self.initialiser_stack,
        }
    }

    /// Attaches one request initialiser, under the same ordering law as
    /// the middleware.
    pub fn with_init(self, initialiser: Initialiser) -> (builder: ClientBuilder)
        ensures
            builder.middleware_registrations() == self.middleware_registrations(),
            builder.initialiser_registrations() == self.initialiser_registrations().push(
                initialiser,
            ),
    {
        ClientBuilder {
            middleware_stack: self.middleware_stack,
            initialiser_stack: self.initialiser_stack.add(initialiser),
        }
    }

    /// Finalises the configuration: both stacks are flattened once, into
    /// chains ordered outermost first, and are read-only from here on.
    pub fn build(self) -> (client: ClientWithMiddleware)
        ensures
            client.middleware@ == self.middleware_registrations(),
            client.initialisers@ == self.initialiser_registrations(),
    {
        let ClientBuilder { middleware_stack, initialiser_stack } = self;
        let mut middleware: Vec<Middleware> = Vec::new();
        middleware_stack.push_units(&mut middleware);
        let mut initialisers: Vec<Initialiser> = Vec::new();
        initialiser_stack.push_units(&mut initialisers);
        ClientWithMiddleware { middleware, initialisers }
    }
}

/// What the initialiser chain leaves behind: the builder's pending headers
/// and the request's freshly seeded context bag.
pub ghost struct InitEffect {
    pub headers: Seq<HeaderView>,
    pub bag: Map<u64, BagValue>,
}

/// The initialiser chain's effect, running initialisers `i` onward in
/// registration (outer-to-inner) order over the given accumulated state.
pub open spec fn init_spec(
    inits: Seq<Initialiser>,
    i: int,
    headers: Seq<HeaderView>,
    bag: Map<u64, BagValue>,
) -> InitEffect
    decreases inits.len() - i,
{
    if i < 0 || i >= inits.len() {
        InitEffect { headers, bag }
    } else {
        match inits[i] {
            Initialiser::DefaultHeader { name, value } => init_spec(
                inits,
                i + 1,
                headers.push(HeaderView { name: name@, value: value@ }),
                bag,
            ),
            Initialiser::SeedBag { key, value } => init_spec(
                inits,
                i + 1,
                headers,
                bag.insert(key, value),
            ),
        }
    }
}

/// A client holding the finalised middleware and initialiser chains, both
/// ordered outermost first. The configuration is read-only after `build`,
/// so it can serve any number of concurrent requests; every per-request
/// value lives in the request's own builder.
#[derive(Debug)]
pub struct ClientWithMiddleware {
    /// The middleware chain, first registered (outermost) first.
    pub middleware: Vec<Middleware>,
    /// The initialiser chain, first registered (outermost) first.
    pub initialisers: Vec<Initialiser>,
}

impl ClientWithMiddleware {
    /// A builder fresh from `request`: the initialiser chain has run over
    /// an empty header list and an empty bag, and nothing else has.
    pub open spec fn initial_state(
        &self,
        method: Method,
        url: Seq<char>,
        rb: RequestBuilder,
    ) -> bool {
        let effect = init_spec(
            self.initialisers@,
            0,
            Seq::<HeaderView>::empty(),
            Map::<u64, BagValue>::empty(),
        );
        &&& rb.method == method
        &&& rb.url@ == url
        &&& header_views(rb.headers@) == effect.headers
        &&& rb.extensions@ == effect.bag
        &&& rb.query@ == Seq::<(String, String)>::empty()
        &&& rb.body is None
        &&& rb.timeout_ms is None
    }

    /// Starts a request: creates the per-request context bag, fresh and
    /// empty, and runs the initialiser chain before any caller mutation
    /// and before any request exists.
    pub fn request(&self, method: Method, url: String) -> (rb: RequestBuilder)
        ensures
            self.initial_state(method, url@, rb),
    {
        let ghost inits = self.initialisers@;
        let mut extensions = ContextBag::new();
        let mut headers: Vec<Header> = Vec::new();
        proof {
            assert(header_views(headers@) =~= Seq::<HeaderView>::empty());
        }
        let mut i: usize = 0;
        while i < self.initialisers.len()
            invariant
                i <= inits.len(),
                inits == self.initialisers@,
                init_spec(inits, i as int, header_views(headers@), extensions@) == init_spec(
                    inits,
                    0,
                    Seq::<HeaderView>::empty(),
                    Map::<u64, BagValue>::empty(),
                ),
            decreases inits.len() - i,
        {
            match &self.initialisers[i] {
                Initialiser::DefaultHeader { name, value } => {
                    headers.push(Header { name: name.clone(), value: value.clone() });
                },
                Initialiser::SeedBag { key, value } => {
                    extensions.insert(*key, *value);
                },
            }
            i += 1;
        }
        RequestBuilder {
            method,
            url,
            headers,
            query: Vec::new(),
            body: None,
            timeout_ms: None,
            extensions,
        }
    }

    /// Starts a GET request.
    pub fn get(&self, url: String) -> (rb: RequestBuilder)
        ensures
            self.initial_state(Method::Get, url@, rb),
    {
        self.request(Method::Get, url)
    }

    /// Starts a POST request.
    pub fn post(&self, url: String) -> (rb: RequestBuilder)
        ensures
            self.initial_state(Method::Post, url@, rb),
    {
        self.request(Method::Post, url)
    }

    /// Starts a PUT request.
    pub fn put(&self, url: String) -> (rb: RequestBuilder)
        ensures
            self.initial_state(Method::Put, url@, rb),
    {
        self.request(Method::Put, url)
    }

    /// Starts a PATCH request.
    pub fn patch(&self, url: String) -> (rb: RequestBuilder)
        ensures
            self.initial_state(Method::Patch, url@, rb),
    {
        self.request(Method::Patch, url)
    }

    /// Starts a DELETE request.
    pub fn delete(&self, url: String) -> (rb: RequestBuilder)
        ensures
            self.initial_state(Method::Delete, url@, rb),
    {
        self.request(Method::Delete, url)
    }

    /// Starts a HEAD request.
    pub fn head(&self, url: String) -> (rb: RequestBuilder)
        ensures
            self.initial_state(Method::Head, url@, rb),
    {
        self.request(Method::Head, url)
    }
}

/// A client without any middleware: both chains are empty, so an
/// invocation is the transport call alone.
impl Default for ClientWithMiddleware {
    fn default() -> (client: ClientWithMiddleware)
        ensures
            client.middleware@ == Seq::<Middleware>::empty(),
            client.initialisers@ == Seq::<Initialiser>::empty(),
    {
        ClientWithMiddleware { middleware: Vec::new(), initialisers: Vec::new() }
    }
}

/// Everything one pipeline invocation reports back: the result, the
/// instrumented trace, and the context bag as the chain left it.
#[derive(Debug)]
pub struct SendReport {
    pub result: Result<Response, Error>,
    pub trace: Vec<Event>,
    pub extensions: ContextBag,
}

/// The outbound half of an invocation has run and every unit delegated;
/// the transport engine must now be called, and `finish` walks its outcome
/// back out.
#[derive(Debug)]
pub struct InFlight {
    /// How many units were entered: the whole chain.
    pub entered: usize,
    /// The events of the outbound half.
    pub trace: Vec<Event>,
    /// The context bag as the transport unit sees it.
    pub extensions: ContextBag,
}

impl InFlight {
    /// Completes the invocation with the transport engine's outcome: the
    /// terminal unit maps the outcome into the pipeline's result type, and
    /// every entered unit sees it on the way out, innermost first.
    pub fn finish(self, outcome: Result<Response, TransportError>) -> (report: SendReport)
        ensures
            report.result == transport_result(outcome),
            report.trace@ == self.trace@ + seq![Event::Transport] + exit_run(self.entered as int),
            report.extensions@ == self.extensions@,
    {
        let ghost orig = self.trace@;
        let ghost n = self.entered as int;
        let InFlight { entered, trace, extensions } = self;
        let mut trace = trace;
        trace.push(Event::Transport);
        let mut j: usize = entered;
        while j > 0
            invariant
                j <= entered,
                n == entered as int,
                trace@ == orig + seq![Event::Transport] + exit_run(n).take(n - j),
            decreases j,
        {
            trace.push(Event::Exit { index: j - 1 });
            assert(trace@ =~= orig + seq![Event::Transport] + exit_run(n).take(n - j + 1));
            j -= 1;
        }
        assert(exit_run(n).take(n) =~= exit_run(n));
        SendReport { result: map_transport(outcome), trace, extensions }
    }
}

/// Where an invocation stands after its first phase.
#[derive(Debug)]
pub enum SendStep {
    /// The pipeline finished without reaching the transport unit: a build
    /// error, or a middleware short-circuit.
    Complete(SendReport),
    /// Every unit delegated; the caller must hand `Request` to the
    /// transport engine and feed the outcome to `InFlight::finish`.
    AwaitingTransport(Request, InFlight),
}

/// A fluent request builder bound to a client's configuration. Every
/// setter is pure accumulation; only materialisation can fail.
#[derive(Debug)]
pub struct RequestBuilder {
    pub method: Method,
    pub url: String,
    pub headers: Vec<Header>,
    pub query: Vec<(String, String)>,
    pub body: Option<Body>,
    pub timeout_ms: Option<u64>,
    pub extensions: ContextBag,
}

/// Two builders agree on everything but their pending header list.
pub open spec fn same_but_headers(a: RequestBuilder, b: RequestBuilder) -> bool {
    &&& a.method == b.method
    &&& a.url@ == b.url@
    &&& a.query@ == b.query@
    &&& a.body == b.body
    &&& a.timeout_ms == b.timeout_ms
    &&& a.extensions@ == b.extensions@
}

/// A buffered body's bytes survived the copy; a missing body stayed missing.
pub open spec fn body_copied(a: Option<Body>, b: Option<Body>) -> bool {
    match (a, b) {
        (Option::None, Option::None) => true,
        (Option::Some(Body::Buffered(x)), Option::Some(Body::Buffered(y))) => x@ == y@,
        _ => false,
    }
}

/// Copies a byte vector.
fn dup_bytes(v: &Vec<u8>) -> (r: Vec<u8>)
    ensures
        r@ == v@,
{
    let mut r: Vec<u8> = Vec::new();
    let mut i: usize = 0;
    while i < v.len()
        invariant
            i <= v@.len(),
            r@ == v@.take(i as int),
        decreases v@.len() - i,
    {
        r.push(v[i]);
        assert(r@ =~= v@.take(i + 1));
        i += 1;
    }
    assert(r@ =~= v@);
    r
}

/// Copies a header list, preserving every header's view.
fn dup_headers(v: &Vec<Header>) -> (r: Vec<Header>)
    ensures
        header_views(r@) == header_views(v@),
{
    let mut r: Vec<Header> = Vec::new();
    let mut i: usize = 0;
    while i < v.len()
        invariant
            i <= v@.len(),
            header_views(r@) == header_views(v@.take(i as int)),
        decreases v@.len() - i,
    {
        let h = &v[i];
        r.push(Header { name: h.name.clone(), value: h.value.clone() });
        assert(header_views(v@.take(i + 1)) =~= header_views(v@.take(i as int)).push(v@[i as int]@));
        i += 1;
    }
    assert(v@.take(v@.len() as int) =~= v@);
    r
}

/// Copies a query pair list, preserving every pair's view.
fn dup_pairs(v: &Vec<(String, String)>) -> (r: Vec<(String, String)>)
    ensures
        pair_views(r@) == pair_views(v@),
{
    let mut r: Vec<(String, String)> = Vec::new();
    let mut i: usize = 0;
    while i < v.len()
        invariant
            i <= v@.len(),
            pair_views(r@) == pair_views(v@.take(i as int)),
        decreases v@.len() - i,
    {
        let p = &v[i];
        r.push((p.0.clone(), p.1.clone()));
        assert(pair_views(r@) =~= pair_views(v@.take(i as int)).push((v@[i as int].0@, v@[
            i as int
        ].1@)));
        assert(pair_views(v@.take(i + 1)) =~= pair_views(v@.take(i as int)).push((v@[i as int].0@,
        v@[i as int].1@)));
        i += 1;
    }
    assert(v@.take(v@.len() as int) =~= v@);
    r
}

impl RequestBuilder {
    /// Appends one pending header; nothing is validated until `build`.
    pub fn header(self, name: String, value: String) -> (rb: RequestBuilder)
        ensures
            same_but_headers(self, rb),
            rb.headers@ == self.headers@.push((Header { name, value })),
    {
        let mut rb = self;
        rb.headers.push(Header { name, value });
        rb
    }

    /// Appends a list of pending headers, in order.
    pub fn headers(self, mut headers: Vec<Header>) -> (rb: RequestBuilder)
        ensures
            same_but_headers(self, rb),
            rb.headers@ == self.headers@ + headers@,
    {
        let mut rb = self;
        rb.headers.append(&mut headers);
        rb
    }

    /// Appends an `authorization` header carrying basic credentials: the
    /// base64 encoding of the UTF-8 bytes of `username:password`, the
    /// password standing empty when none is given.
    pub fn basic_auth(self, username: String, password: Option<String>) -> (rb: RequestBuilder)
        ensures
            same_but_headers(self, rb),
            header_views(rb.headers@) == header_views(self.headers@).push(
                (HeaderView {
                    name: "authorization"@,
                    value: "Basic "@ + base64_of(
                        encode_utf8(
                            username@ + ":"@ + (match password {
                                Option::Some(p) => p@,
                                Option::None => Seq::<char>::empty(),
                            }),
                        ),
                    ),
                }),
            ),
    {
        let ghost cred_view = username@ + ":"@ + (match &password {
            Option::Some(p) => p@,
            Option::None => Seq::<char>::empty(),
        });
        let mut credentials = username;
        credentials.append(":");
        match &password {
            Option::Some(p) => credentials.append(p.as_str()),
            Option::None => {},
        }
        assert(credentials@ =~= cred_view);
        let encoded = base64_string(credentials.as_str().as_bytes());
        let mut value = "Basic ".to_owned();
        value.append(encoded.as_str());
        assert(value@ =~= "Basic "@ + base64_of(encode_utf8(cred_view)));
        let mut rb = self;
        rb.headers.push(Header { name: "authorization".to_owned(), value });
        rb
    }

    /// Appends an `authorization` header carrying the bearer token.
    pub fn bearer_auth(self, token: String) -> (rb: RequestBuilder)
        ensures
            same_but_headers(self, rb),
            header_views(rb.headers@) == header_views(self.headers@).push(
                (HeaderView { name: "authorization"@, value: "Bearer "@ + token@ }),
            ),
    {
        let mut value = "Bearer ".to_owned();
        value.append(token.as_str());
        let mut rb = self;
        rb.headers.push(Header { name: "authorization".to_owned(), value });
        rb
    }

    /// Sets the request body, replacing any prior one.
    pub fn body(self, body: Body) -> (rb: RequestBuilder)
        ensures
            rb.method == self.method,
            rb.url@ == self.url@,
            rb.headers@ == self.headers@,
            rb.query@ == self.query@,
            rb.timeout_ms == self.timeout_ms,
            rb.extensions@ == self.extensions@,
            rb.body == Some(body),
    {
        let mut rb = self;
        rb.body = Some(body);
        rb
    }

    /// Sets the per-request timeout, in milliseconds.
    pub fn timeout(self, timeout_ms: u64) -> (rb: RequestBuilder)
        ensures
            rb.method == self.method,
            rb.url@ == self.url@,
            rb.headers@ == self.headers@,
            rb.query@ == self.query@,
            rb.body == self.body,
            rb.extensions@ == self.extensions@,
            rb.timeout_ms == Some(timeout_ms),
    {
        let mut rb = self;
        rb.timeout_ms = Some(timeout_ms);
        rb
    }

    /// Marks the body as a streaming multipart form: such a body cannot be
    /// replayed, so the builder stops being clonable.
    pub fn multipart(self) -> (rb: RequestBuilder)
        ensures
            rb.method == self.method,
            rb.url@ == self.url@,
            rb.headers@ == self.headers@,
            rb.query@ == self.query@,
            rb.timeout_ms == self.timeout_ms,
            rb.extensions@ == self.extensions@,
            rb.body == Some(Body::Streaming),
    {
        let mut rb = self;
        rb.body = Some(Body::Streaming);
        rb
    }

    /// Appends query pairs, in order.
    pub fn query(self, mut pairs: Vec<(String, String)>) -> (rb: RequestBuilder)
        ensures
            rb.method == self.method,
            rb.url@ == self.url@,
            rb.headers@ == self.headers@,
            rb.body == self.body,
            rb.timeout_ms == self.timeout_ms,
            rb.extensions@ == self.extensions@,
            rb.query@ == self.query@ + pairs@,
    {
        let mut rb = self;
        rb.query.append(&mut pairs);
        rb
    }

    /// Sets an already URL-encoded form as the buffered body and declares
    /// its content type.
    pub fn form(self, encoded: Vec<u8>) -> (rb: RequestBuilder)
        ensures
            rb.method == self.method,
            rb.url@ == self.url@,
            rb.query@ == self.query@,
            rb.timeout_ms == self.timeout_ms,
            rb.extensions@ == self.extensions@,
            rb.body == Some(Body::Buffered(encoded)),
            header_views(rb.headers@) == header_views(self.headers@).push(
                (HeaderView {
                    name: "content-type"@,
                    value: "application/x-www-form-urlencoded"@,
                }),
            ),
    {
        let mut rb = self;
        rb.headers.push(
            Header {
                name: "content-type".to_owned(),
                value: "application/x-www-form-urlencoded".to_owned(),
            },
        );
        rb.body = Some(Body::Buffered(encoded));
        rb
    }

    /// Sets already serialised JSON as the buffered body and declares its
    /// content type.
    pub fn json(self, encoded: Vec<u8>) -> (rb: RequestBuilder)
        ensures
            rb.method == self.method,
            rb.url@ == self.url@,
            rb.query@ == self.query@,
            rb.timeout_ms == self.timeout_ms,
            rb.extensions@ == self.extensions@,
            rb.body == Some(Body::Buffered(encoded)),
            header_views(rb.headers@) == header_views(self.headers@).push(
                (HeaderView { name: "content-type"@, value: "application/json"@ }),
            ),
    {
        let mut rb = self;
        rb.headers.push(
            Header { name: "content-type".to_owned(), value: "application/json".to_owned() },
        );
        rb.body = Some(Body::Buffered(encoded));
        rb
    }

    /// Stores `value` under `key` in this request's context bag,
    /// overwriting any prior value of that key.
    pub fn with_extension(self, key: u64, value: BagValue) -> (rb: RequestBuilder)
        ensures
            rb.method == self.method,
            rb.url@ == self.url@,
            rb.headers@ == self.headers@,
            rb.query@ == self.query@,
            rb.body == self.body,
            rb.timeout_ms == self.timeout_ms,
            rb.extensions@ == self.extensions@.insert(key, value),
    {
        let mut rb = self;
        rb.extensions.insert(key, value);
        rb
    }

    /// The request's context bag, as assembled so far.
    pub fn extensions(&self) -> (bag: &ContextBag)
        ensures
            bag@ == self.extensions@,
    {
        &self.extensions
    }

    /// Materialises the request. Every pending header is validated;
    /// the first invalid one is reported and nothing else runs. On
    /// success the request carries exactly what the builder accumulated.
    pub fn build(self) -> (r: Result<Request, BuildError>)
        ensures
            r is Ok <==> first_header_fault(header_views(self.headers@)) is None,
            match r {
                Result::Ok(req) => {
                    &&& req.method == self.method
                    &&& req.url == self.url
                    &&& req.headers == self.headers
                    &&& req.query == self.query
                    &&& req.body == self.body
                    &&& req.timeout_ms == self.timeout_ms
                },
                Result::Err(e) => Some(e) == first_header_fault(header_views(self.headers@)),
            },
    {
        match crate::request::find_header_fault(&self.headers) {
            Some(e) => Err(e),
            None => {
                let RequestBuilder { method, url, headers, query, body, timeout_ms, extensions: _ } =
                    self;
                Ok(Request { method, url, headers, query, body, timeout_ms })
            },
        }
    }

    /// Clones the builder when its body can be replayed: the copy agrees
    /// with the original on everything the request will carry, but its
    /// context bag starts empty — extensions never survive a clone. A
    /// streaming body cannot be replayed, so no clone is returned.
    pub fn try_clone(&self) -> (r: Option<RequestBuilder>)
        ensures
            (match self.body {
                Option::Some(b) => b.is_replayable(),
                Option::None => true,
            }) <==> r is Some,
            match r {
                Option::Some(rb) => {
                    &&& rb.method == self.method
                    &&& rb.url@ == self.url@
                    &&& header_views(rb.headers@) == header_views(self.headers@)
                    &&& pair_views(rb.query@) == pair_views(self.query@)
                    &&& body_copied(self.body, rb.body)
                    &&& rb.timeout_ms == self.timeout_ms
                    &&& rb.extensions@ == Map::<u64, BagValue>::empty()
                },
                Option::None => true,
            },
    {
        let body: Option<Body> = match &self.body {
            Option::Some(Body::Streaming) => {
                return None;
            },
            Option::Some(Body::Buffered(bytes)) => Some(Body::Buffered(dup_bytes(bytes))),
            Option::None => None,
        };
        Some(
            RequestBuilder {
                method: self.method,
                url: self.url.clone(),
                headers: dup_headers(&self.headers),
                query: dup_pairs(&self.query),
                body,
                timeout_ms: self.timeout_ms,
                extensions: ContextBag::new(),
            },
        )
    }

    /// Runs the whole invocation against a transport outcome the caller
    /// already holds: the request materialises, the chain runs, and the
    /// outcome stands in for the transport engine's answer wherever the
    /// chain reaches it. But for a failed materialisation, what comes back
    /// is exactly the chain semantics `chain_effect`, so every law proved
    /// of the chain holds of this result.
    pub fn invoke(
        self,
        client: &ClientWithMiddleware,
        outcome: Result<Response, TransportError>,
    ) -> (report: SendReport)
        ensures
            ({
                let fault = first_header_fault(header_views(self.headers@));
                let effect = chain_effect(client.middleware@, self.extensions@, outcome);
                match fault {
                    Option::Some(b) => report.result == Err::<Response, Error>(Error::Build(b))
                        && report.trace@ == Seq::<Event>::empty()
                        && report.extensions@ == self.extensions@,
                    Option::None => report.result == effect.result
                        && report.trace@ == effect.trace
                        && report.extensions@ == effect.bag,
                }
            }),
    {
        match self.send(client) {
            SendStep::Complete(report) => report,
            SendStep::AwaitingTransport(_, in_flight) => in_flight.finish(outcome),
        }
    }

    /// Runs the first phase of the invocation: materialise the request —
    /// failing fast, before any middleware, on a build error — then run
    /// the outbound half of the middleware chain. Either the invocation
    /// completes without the transport engine, or the materialised request
    /// is handed back for the caller's transport call.
    pub fn send(self, client: &ClientWithMiddleware) -> (step: SendStep)
        ensures
            ({
                let fault = first_header_fault(header_views(self.headers@));
                let pre = pre_spec(client.middleware@, 0, self.extensions@);
                match fault {
                    Option::Some(b) => step matches SendStep::Complete(report)
                        && report.result == Err::<Response, Error>(Error::Build(b))
                        && report.trace@ == Seq::<Event>::empty()
                        && report.extensions@ == self.extensions@,
                    Option::None => match pre.halted {
                        Option::Some(failure) => step matches SendStep::Complete(report)
                            && report.result == Err::<Response, Error>(
                            Error::Middleware { code: failure.code },
                        )
                            && report.trace@ == pre.trace
                            && report.extensions@ == pre.bag,
                        Option::None => step matches SendStep::AwaitingTransport(req, flight)
                            && req.method == self.method
                            && req.url@ == self.url@
                            && req.headers@ == self.headers@
                            && req.query@ == self.query@
                            && req.body == self.body
                            && req.timeout_ms == self.timeout_ms
                            && flight.entered == client.middleware@.len()
                            && flight.trace@ == pre.trace
                            && flight.extensions@ == pre.bag,
                    },
                }
            }),
    {
        let RequestBuilder { method, url, headers, query, body, timeout_ms, extensions } = self;
        let mut extensions = extensions;
        let rebuilt = RequestBuilder {
            method,
            url,
            headers,
            query,
            body,
            timeout_ms,
            extensions: ContextBag::new(),
        };
        match rebuilt.build() {
            Err(b) => SendStep::Complete(
                SendReport { result: Err(Error::Build(b)), trace: Vec::new(), extensions },
            ),
            Ok(req) => {
                let mut trace: Vec<Event> = Vec::new();
                let halted = run_pre(&client.middleware, 0, &mut extensions, &mut trace);
                match halted {
                    Some(failure) => SendStep::Complete(
                        SendReport {
                            result: Err(Error::Middleware { code: failure.code }),
                            trace,
                            extensions,
                        },
                    ),
                    None => SendStep::AwaitingTransport(
                        req,
                        InFlight { entered: client.middleware.len(), trace, extensions },
                    ),
                }
            },
        }
    }
}

} // verus!
