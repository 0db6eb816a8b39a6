//! The pipeline's error taxonomy: build, middleware and transport failures,
//! all reported through the result type, never by an abort.

use vstd::prelude::*;

verus! {

/// The request could not be materialised from the builder.
///
/// `index` names the offending entry in the builder's pending header list;
/// the name of a header is checked before its value.
#[derive(Clone, Copy, PartialEq, Eq, Structural, Debug)]
pub enum BuildError {
    InvalidHeaderName { index: usize },
    InvalidHeaderValue { index: usize },
}

/// A failure originating from the external transport engine.
#[derive(Clone, Copy, PartialEq, Eq, Structural, Debug)]
pub enum TransportError {
    Connect,
    TimedOut,
    Protocol,
}

/// Everything a pipeline invocation can report.
///
/// A build error surfaces before any middleware runs; a middleware error
/// short-circuits all inner stages; a transport error flows back out
/// through every still-active outer stage.
#[derive(Clone, Copy, PartialEq, Eq, Structural, Debug)]
pub enum Error {
    Build(BuildError),
    Middleware { code: u32 },
    Transport(TransportError),
}

} // verus!
