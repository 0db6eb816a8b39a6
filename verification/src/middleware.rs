//! Middleware and initialiser units, and the Stack/Identity composites
//! that record registration order.
//!
//! Both chains obey one combination law: each registration produces
//! `Stack { inner: new unit, outer: accumulated stack }`, and composing a
//! stack over a base unit puts `outer` around `inner`'s composition. The
//! first registered unit therefore ends up outermost — it is the first to
//! see an outbound request and the last to see the inbound result.

use vstd::prelude::*;
use crate::bag::BagValue;

verus! {

/// One middleware unit of work, as the verified engine hosts it.
///
/// A unit may mutate the context bag, observe it, delegate inward
/// unchanged, or short-circuit with an error; what a unit decides is its
/// own business, the engine only guarantees how units compose.
#[derive(Clone, Copy, PartialEq, Eq, Structural, Debug)]
pub enum Middleware {
    /// Observes the chain and delegates unchanged.
    Transparent,
    /// Stores `value` under `key` in the context bag, then delegates.
    SeedBag { key: u64, value: BagValue },
    /// Records whether the bag currently holds `key`, then delegates.
    ObserveBag { key: u64 },
    /// Short-circuits with a middleware error; nothing inward ever runs.
    Fail { code: u32 },
}

impl Middleware {
    /// Whether this unit refuses to delegate.
    pub open spec fn is_short_circuit(&self) -> bool {
        self is Fail
    }

    /// Whether this unit writes `key` into the bag.
    pub open spec fn writes_key(&self, key: u64) -> bool {
        match *self {
            Middleware::SeedBag { key: k, value: _ } => k == key,
            _ => false,
        }
    }
}

/// One request initialiser: a pre-materialisation hook that mutates the
/// request builder and the context bag, synchronously and without I/O.
#[derive(Debug)]
#[allow(inconsistent_fields)]
pub enum Initialiser {
    /// Appends a header to the builder's pending list.
    DefaultHeader { name: String, value: String },
    /// Stores `value` under `key` in the request's fresh context bag.
    SeedBag { key: u64, value: BagValue },
}

/// The record of a middleware failure: which unit failed, and its error code.
#[derive(Clone, Copy, PartialEq, Eq, Structural, Debug)]
pub struct MwFailure {
    /// The failing unit's position in registration order, outermost first.
    pub index: usize,
    /// The code the unit reported.
    pub code: u32,
}

/// One entry in the instrumented trace of a pipeline invocation.
///
/// `index` is always a unit's position in registration order, outermost
/// first.
#[derive(Clone, Copy, PartialEq, Eq, Structural, Debug)]
pub enum Event {
    /// A unit was invoked on the way in.
    Enter { index: usize },
    /// A unit looked a key up and found it present or absent.
    Observed { index: usize, found: bool },
    /// The terminal transport unit was invoked.
    Transport,
    /// A unit saw the result on the way back out.
    Exit { index: usize },
}

/// The middleware registrations, kept in the shape registration builds:
/// the neutral element, or a composite of the latest unit and everything
/// registered before it, which wraps the latest unit from outside.
#[derive(Debug)]
pub enum MiddlewareStack {
    Identity,
    Stack { inner: Middleware, outer: Box<MiddlewareStack> },
}

impl MiddlewareStack {
    /// The registered units, first registered first — which, by the
    /// composition law, is also outermost first.
    pub open spec fn registrations(&self) -> Seq<Middleware>
        decreases self,
    {
        match *self {
            MiddlewareStack::Identity => Seq::empty(),
            MiddlewareStack::Stack { inner, outer } => outer.registrations().push(inner),
        }
    }

    /// Wraps everything registered so far around `layer`.
    pub fn add(self, layer: Middleware) -> (r: MiddlewareStack)
        ensures
            r.registrations() == self.registrations().push(layer),
    {
        MiddlewareStack::Stack { inner: layer, outer: Box::new(self) }
    }

    /// Flattens the stack onto `out`, outermost unit first.
    pub fn push_units(self, out: &mut Vec<Middleware>)
        ensures
            final(out)@ == old(out)@ + self.registrations(),
        decreases self,
    {
        match self {
            MiddlewareStack::Identity => {
                assert(final(out)@ =~= old(out)@ + self.registrations());
            },
            MiddlewareStack::Stack { inner, outer } => {
                let ghost regs = self.registrations();
                outer.push_units(out);
                out.push(inner);
                assert(final(out)@ =~= old(out)@ + regs);
            },
        }
    }
}

/// The initialiser registrations, in the same shape and under the same
/// composition law as the middleware stack.
#[derive(Debug)]
pub enum InitialiserStack {
    Identity,
    Stack { inner: Initialiser, outer: Box<InitialiserStack> },
}

impl InitialiserStack {
    /// The registered initialisers, first registered first.
    pub open spec fn registrations(&self) -> Seq<Initialiser>
        decreases self,
    {
        match *self {
            InitialiserStack::Identity => Seq::empty(),
            InitialiserStack::Stack { inner, outer } => outer.registrations().push(inner),
        }
    }

    /// Wraps everything registered so far around `initialiser`.
    pub fn add(self, initialiser: Initialiser) -> (r: InitialiserStack)
        ensures
            r.registrations() == self.registrations().push(initialiser),
    {
        InitialiserStack::Stack { inner: initialiser, outer: Box::new(self) }
    }

    /// Flattens the stack onto `out`, outermost initialiser first.
    pub fn push_units(self, out: &mut Vec<Initialiser>)
        ensures
            final(out)@ == old(out)@ + self.registrations(),
        decreases self,
    {
        match self {
            InitialiserStack::Identity => {
                assert(final(out)@ =~= old(out)@ + self.registrations());
            },
            InitialiserStack::Stack { inner, outer } => {
                let ghost regs = self.registrations();
                outer.push_units(out);
                out.push(inner);
                assert(final(out)@ =~= old(out)@ + regs);
            },
        }
    }
}

} // verus!
