//! The semantics of one pipeline invocation.
//!
//! `pre_spec` is the mathematical interpreter for the outbound half of the
//! chain: it says, for a chain and a starting bag, which events the
//! instrumented run produces, how the bag ends up, and whether some unit
//! short-circuited. `chain_effect` assembles the full invocation from it:
//! either the short-circuited run, or the outbound half followed by the
//! transport call and the inbound walk back out. `run_pre` is the verified
//! executable that realises the outbound half.

use vstd::prelude::*;
use crate::bag::{BagValue, ContextBag};
use crate::error::{Error, TransportError};
use crate::middleware::{Event, Middleware, MwFailure};
use crate::request::Response;

verus! {

/// What the outbound half of a run produces.
pub ghost struct PreEffect {
    /// The events emitted so far, in order.
    pub trace: Seq<Event>,
    /// The context bag as the innermost reached point sees it.
    pub bag: Map<u64, BagValue>,
    /// The first short-circuiting unit, if any.
    pub halted: Option<MwFailure>,
}

/// What a whole invocation produces.
pub ghost struct ChainEffect {
    /// The complete instrumented trace.
    pub trace: Seq<Event>,
    /// The invocation's result.
    pub result: Result<Response, Error>,
    /// The context bag when the invocation returns.
    pub bag: Map<u64, BagValue>,
}

/// Wraps an inner run in unit `i`'s entry, its extra events, and — when
/// the inner run failed — its exit, since an error passes back out through
/// the unit at once.
pub open spec fn wrap_unit(i: int, extra: Seq<Event>, inner: PreEffect) -> PreEffect {
    PreEffect {
        trace: seq![Event::Enter { index: i as usize }] + extra + inner.trace + (
        if inner.halted is Some {
            seq![Event::Exit { index: i as usize }]
        } else {
            Seq::empty()
        }),
        bag: inner.bag,
        halted: inner.halted,
    }
}

/// The outbound half of a run, starting at unit `i` with bag `bag`.
pub open spec fn pre_spec(units: Seq<Middleware>, i: int, bag: Map<u64, BagValue>) -> PreEffect
    decreases units.len() - i,
{
    if i < 0 || i >= units.len() {
        PreEffect { trace: Seq::empty(), bag, halted: None }
    } else {
        match units[i] {
            Middleware::Transparent => wrap_unit(i, Seq::empty(), pre_spec(units, i + 1, bag)),
            Middleware::SeedBag { key, value } => wrap_unit(
                i,
                Seq::empty(),
                pre_spec(units, i + 1, bag.insert(key, value)),
            ),
            Middleware::ObserveBag { key } => wrap_unit(
                i,
                seq![Event::Observed { index: i as usize, found: bag.contains_key(key) }],
                pre_spec(units, i + 1, bag),
            ),
            Middleware::Fail { code } => PreEffect {
                trace: seq![
                    Event::Enter { index: i as usize },
                    Event::Exit { index: i as usize },
                ],
                bag,
                halted: Some(MwFailure { index: i as usize, code }),
            },
        }
    }
}

/// The exit events of `n` units walking back out: the innermost first,
/// the outermost (index 0) last.
pub open spec fn exit_run(n: int) -> Seq<Event> {
    Seq::new(if n >= 0 { n as nat } else { 0 }, |k: int| Event::Exit { index: (n - 1 - k) as usize })
}

/// How the terminal unit maps the transport engine's outcome into the
/// pipeline's result type.
pub open spec fn transport_result(outcome: Result<Response, TransportError>) -> Result<
    Response,
    Error,
> {
    match outcome {
        Ok(resp) => Ok(resp),
        Err(e) => Err(Error::Transport(e)),
    }
}

/// The full semantics of invoking a chain over a transport outcome: the
/// short-circuited outbound run alone, or the outbound run, the transport
/// call, and every unit's exit in inner-to-outer order.
pub open spec fn chain_effect(
    units: Seq<Middleware>,
    bag: Map<u64, BagValue>,
    outcome: Result<Response, TransportError>,
) -> ChainEffect {
    let pre = pre_spec(units, 0, bag);
    match pre.halted {
        Some(failure) => ChainEffect {
            trace: pre.trace,
            result: Err(Error::Middleware { code: failure.code }),
            bag: pre.bag,
        },
        None => ChainEffect {
            trace: pre.trace + seq![Event::Transport] + exit_run(units.len() as int),
            result: transport_result(outcome),
            bag: pre.bag,
        },
    }
}

/// What one unit does to the bag on the way in.
pub open spec fn apply_unit(unit: Middleware, bag: Map<u64, BagValue>) -> Map<u64, BagValue> {
    match unit {
        Middleware::SeedBag { key, value } => bag.insert(key, value),
        _ => bag,
    }
}

/// The bag with the writes of units `i` up to (excluding) `j` applied in
/// order. `seeds_applied(units, 0, j, bag)` is the bag as unit `j`
/// receives it.
pub open spec fn seeds_applied(units: Seq<Middleware>, i: int, j: int, bag: Map<u64, BagValue>) -> Map<
    u64,
    BagValue,
>
    decreases j - i,
{
    if i < 0 || i >= j {
        bag
    } else {
        seeds_applied(units, i + 1, j, apply_unit(units[i], bag))
    }
}

/// The position of the first short-circuiting unit at or after `i`, or the
/// chain's length when every unit delegates.
pub open spec fn first_fail_at(units: Seq<Middleware>, i: int) -> int
    decreases units.len() - i,
{
    if i < 0 || i >= units.len() {
        units.len() as int
    } else if units[i] is Fail {
        i
    } else {
        first_fail_at(units, i + 1)
    }
}

/// How many units a run entering at unit 0 invokes: everything up to and
/// including the first short-circuiting unit, or the whole chain.
pub open spec fn entered_count(units: Seq<Middleware>) -> int {
    let f = first_fail_at(units, 0);
    if f < units.len() {
        f + 1
    } else {
        units.len() as int
    }
}

/// Maps the transport engine's outcome into the pipeline's result type.
pub fn map_transport(outcome: Result<Response, TransportError>) -> (r: Result<Response, Error>)
    ensures
        r == transport_result(outcome),
{
    match outcome {
        Ok(resp) => Ok(resp),
        Err(e) => Err(Error::Transport(e)),
    }
}

/// Runs the outbound half of the chain from unit `i` inward: each unit's
/// entry is recorded, its bag effect applied, and an error short-circuits
/// everything further in while every entered unit still sees it on the
/// way out.
pub(crate) fn run_pre(
    units: &Vec<Middleware>,
    i: usize,
    bag: &mut ContextBag,
    trace: &mut Vec<Event>,
) -> (halted: Option<MwFailure>)
    requires
        i <= units@.len(),
    ensures
        final(bag)@ == pre_spec(units@, i as int, old(bag)@).bag,
        final(trace)@ == old(trace)@ + pre_spec(units@, i as int, old(bag)@).trace,
        halted == pre_spec(units@, i as int, old(bag)@).halted,
    decreases units@.len() - i,
{
    let ghost effect = pre_spec(units@, i as int, old(bag)@);
    if i == units.len() {
        assert(trace@ =~= old(trace)@ + effect.trace);
        return None;
    }
    let unit = units[i];
    trace.push(Event::Enter { index: i });
    match unit {
        Middleware::Transparent => {
            let halted = run_pre(units, i + 1, bag, trace);
            if halted.is_some() {
                trace.push(Event::Exit { index: i });
            }
            assert(trace@ =~= old(trace)@ + effect.trace);
            halted
        },
        Middleware::SeedBag { key, value } => {
            bag.insert(key, value);
            let halted = run_pre(units, i + 1, bag, trace);
            if halted.is_some() {
                trace.push(Event::Exit { index: i });
            }
            assert(trace@ =~= old(trace)@ + effect.trace);
            halted
        },
        Middleware::ObserveBag { key } => {
            let found = bag.contains(key);
            trace.push(Event::Observed { index: i, found });
            let halted = run_pre(units, i + 1, bag, trace);
            if halted.is_some() {
                trace.push(Event::Exit { index: i });
            }
            assert(trace@ =~= old(trace)@ + effect.trace);
            halted
        },
        Middleware::Fail { code } => {
            trace.push(Event::Exit { index: i });
            assert(trace@ =~= old(trace)@ + effect.trace);
            Some(MwFailure { index: i, code })
        },
    }
}

} // verus!
