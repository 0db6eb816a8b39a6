//! A verified middleware composition engine for an HTTP request pipeline.
//!
//! An ordered chain of middleware units wraps a terminal transport unit;
//! a per-request context bag carries state between the stages. The engine
//! guarantees the ordering contract (first registered, outermost), the
//! short-circuit behaviour of middleware errors, and fail-fast on build
//! errors; the network call itself is performed by the caller between the
//! two phases of `send`.

pub mod bag;
pub mod chain;
pub mod client;
pub mod encoding;
pub mod error;
pub mod laws;
pub mod middleware;
pub mod request;

pub use bag::BagValue;
pub use bag::ContextBag;
pub use client::ClientBuilder;
pub use client::ClientWithMiddleware;
pub use client::InFlight;
pub use client::RequestBuilder;
pub use client::SendReport;
pub use client::SendStep;
pub use error::BuildError;
pub use error::Error;
pub use error::TransportError;
pub use middleware::Event;
pub use middleware::Initialiser;
pub use middleware::InitialiserStack;
pub use middleware::Middleware;
pub use middleware::MiddlewareStack;
pub use middleware::MwFailure;
pub use request::Body;
pub use request::Header;
pub use request::Method;
pub use request::Request;
pub use request::Response;
