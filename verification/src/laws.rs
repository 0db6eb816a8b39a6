//! The composition engine's laws, proved once for every chain.
//!
//! Each law speaks about `chain_effect` — the full semantics that `send`
//! and `finish` are proved to realise — so what is shown here holds of
//! every actual invocation.

use vstd::prelude::*;
use crate::bag::BagValue;
use crate::chain::{
    chain_effect, entered_count, exit_run, first_fail_at, pre_spec, seeds_applied,
    transport_result,
};
use crate::error::{Error, TransportError};
use crate::middleware::{Event, Middleware, MwFailure};
use crate::request::Response;

verus! {

/// The indices of the entry events in a trace, in order.
pub open spec fn enters_of(trace: Seq<Event>) -> Seq<usize>
    decreases trace.len(),
{
    if trace.len() == 0 {
        Seq::empty()
    } else {
        let rest = enters_of(trace.drop_first());
        match trace[0] {
            Event::Enter { index } => seq![index] + rest,
            _ => rest,
        }
    }
}

/// The indices of the exit events in a trace, in order.
pub open spec fn exits_of(trace: Seq<Event>) -> Seq<usize>
    decreases trace.len(),
{
    if trace.len() == 0 {
        Seq::empty()
    } else {
        let rest = exits_of(trace.drop_first());
        match trace[0] {
            Event::Exit { index } => seq![index] + rest,
            _ => rest,
        }
    }
}

/// The transport unit was never invoked in this trace.
pub open spec fn transport_free(trace: Seq<Event>) -> bool {
    forall|t: int| 0 <= t < trace.len() ==> !((#[trigger] trace[t]) is Transport)
}

/// The error code a short-circuiting unit reports.
pub open spec fn fail_code(unit: Middleware) -> u32 {
    match unit {
        Middleware::Fail { code } => code,
        _ => 0,
    }
}

proof fn lemma_filters_single(e: Event)
    ensures
        enters_of(seq![e]) == (match e {
            Event::Enter { index } => seq![index],
            _ => Seq::<usize>::empty(),
        }),
        exits_of(seq![e]) == (match e {
            Event::Exit { index } => seq![index],
            _ => Seq::<usize>::empty(),
        }),
{
    assert(seq![e].drop_first() =~= Seq::<Event>::empty());
    assert(enters_of(Seq::<Event>::empty()) == Seq::<usize>::empty());
    assert(exits_of(Seq::<Event>::empty()) == Seq::<usize>::empty());
    match e {
        Event::Enter { index } => {
            assert(enters_of(seq![e]) =~= seq![index]);
            assert(exits_of(seq![e]) =~= Seq::<usize>::empty());
        },
        Event::Exit { index } => {
            assert(enters_of(seq![e]) =~= Seq::<usize>::empty());
            assert(exits_of(seq![e]) =~= seq![index]);
        },
        _ => {
            assert(enters_of(seq![e]) =~= Seq::<usize>::empty());
            assert(exits_of(seq![e]) =~= Seq::<usize>::empty());
        },
    }
}

proof fn lemma_filters_concat(a: Seq<Event>, b: Seq<Event>)
    ensures
        enters_of(a + b) == enters_of(a) + enters_of(b),
        exits_of(a + b) == exits_of(a) + exits_of(b),
    decreases a.len(),
{
    if a.len() == 0 {
        assert(a + b =~= b);
        assert(enters_of(a) + enters_of(b) =~= enters_of(b));
        assert(exits_of(a) + exits_of(b) =~= exits_of(b));
    } else {
        lemma_filters_concat(a.drop_first(), b);
        assert((a + b).drop_first() =~= a.drop_first() + b);
        assert((a + b)[0] == a[0]);
        match a[0] {
            Event::Enter { index } => {
                assert(enters_of(a + b) =~= enters_of(a) + enters_of(b));
                assert(exits_of(a + b) =~= exits_of(a) + exits_of(b));
            },
            Event::Exit { index } => {
                assert(enters_of(a + b) =~= enters_of(a) + enters_of(b));
                assert(exits_of(a + b) =~= exits_of(a) + exits_of(b));
            },
            _ => {
                assert(enters_of(a + b) =~= enters_of(a) + enters_of(b));
                assert(exits_of(a + b) =~= exits_of(a) + exits_of(b));
            },
        }
    }
}

proof fn lemma_exit_run_filters(n: int)
    requires
        n >= 0,
    ensures
        exits_of(exit_run(n)) == Seq::new(n as nat, |j: int| (n - 1 - j) as usize),
        enters_of(exit_run(n)) == Seq::<usize>::empty(),
        transport_free(exit_run(n)),
    decreases n,
{
    if n == 0 {
        assert(exit_run(0) =~= Seq::<Event>::empty());
        assert(exits_of(exit_run(0)) =~= Seq::new(0, |j: int| (0 - 1 - j) as usize));
    } else {
        lemma_exit_run_filters(n - 1);
        assert(exit_run(n).drop_first() =~= exit_run(n - 1));
        assert(exit_run(n)[0] == Event::Exit { index: (n - 1) as usize });
        assert(exits_of(exit_run(n)) =~= Seq::new(n as nat, |j: int| (n - 1 - j) as usize));
        assert(enters_of(exit_run(n)) =~= Seq::<usize>::empty());
    }
}

/// The one fact everything else follows from: for a run entering at unit
/// `i`, the entry events name `i`, `i + 1`, … in order up to the first
/// short-circuiting unit (or the whole chain); the exit events name the
/// same units in exactly the reverse order when some unit failed, and are
/// absent from the outbound half otherwise; the transport unit never
/// appears; the reported failure is the first short-circuiting unit with
/// its code; and the bag is the starting bag with every delegating outer
/// unit's writes applied in order.
pub proof fn lemma_pre_spec_shape(units: Seq<Middleware>, i: int, bag: Map<u64, BagValue>)
    requires
        0 <= i <= units.len(),
    ensures
        ({
            let pre = pre_spec(units, i, bag);
            let f = first_fail_at(units, i);
            let k = if f < units.len() {
                f + 1 - i
            } else {
                units.len() - i
            };
            &&& i <= f <= units.len()
            &&& enters_of(pre.trace) == Seq::new(k as nat, |j: int| (i + j) as usize)
            &&& exits_of(pre.trace) == (if f < units.len() {
                Seq::new(k as nat, |j: int| (i + k - 1 - j) as usize)
            } else {
                Seq::<usize>::empty()
            })
            &&& transport_free(pre.trace)
            &&& pre.halted == (if f < units.len() {
                Some(MwFailure { index: f as usize, code: fail_code(units[f]) })
            } else {
                None::<MwFailure>
            })
            &&& pre.bag == seeds_applied(units, i, f, bag)
        }),
    decreases units.len() - i,
{
    let pre = pre_spec(units, i, bag);
    let f = first_fail_at(units, i);
    if i == units.len() {
        assert(enters_of(pre.trace) =~= Seq::new(0, |j: int| (i + j) as usize));
        assert(exits_of(pre.trace) =~= Seq::<usize>::empty());
    } else {
        match units[i] {
            Middleware::Fail { code } => {
                let tr = seq![
                    Event::Enter { index: i as usize },
                    Event::Exit { index: i as usize },
                ];
                assert(pre.trace == tr);
                assert(tr =~= seq![Event::Enter { index: i as usize }] + seq![
                    Event::Exit { index: i as usize },
                ]);
                lemma_filters_single(Event::Enter { index: i as usize });
                lemma_filters_single(Event::Exit { index: i as usize });
                lemma_filters_concat(
                    seq![Event::Enter { index: i as usize }],
                    seq![Event::Exit { index: i as usize }],
                );
                assert(enters_of(pre.trace) =~= Seq::new(1, |j: int| (i + j) as usize));
                assert(exits_of(pre.trace) =~= Seq::new(1, |j: int| (i + 1 - 1 - j) as usize));
            },
            Middleware::Transparent => {
                lemma_pre_spec_shape(units, i + 1, bag);
                lemma_delegating_step(units, i, bag, bag, Seq::<Event>::empty());
            },
            Middleware::SeedBag { key, value } => {
                lemma_pre_spec_shape(units, i + 1, bag.insert(key, value));
                lemma_delegating_step(units, i, bag, bag.insert(key, value), Seq::<Event>::empty());
            },
            Middleware::ObserveBag { key } => {
                lemma_pre_spec_shape(units, i + 1, bag);
                lemma_delegating_step(
                    units,
                    i,
                    bag,
                    bag,
                    seq![Event::Observed { index: i as usize, found: bag.contains_key(key) }],
                );
            },
        }
    }
}

/// The inductive step shared by every delegating unit: given the shape of
/// the inner run over `inner_bag`, the wrapped run has the shape one
/// position wider.
proof fn lemma_delegating_step(
    units: Seq<Middleware>,
    i: int,
    bag: Map<u64, BagValue>,
    inner_bag: Map<u64, BagValue>,
    extra: Seq<Event>,
)
    requires
        0 <= i < units.len(),
        !(units[i] is Fail),
        crate::chain::apply_unit(units[i], bag) == inner_bag,
        pre_spec(units, i, bag) == crate::chain::wrap_unit(
            i,
            extra,
            pre_spec(units, i + 1, inner_bag),
        ),
        forall|t: int|
            0 <= t < extra.len() ==> !((#[trigger] extra[t]) is Transport) && !(extra[t] is Enter)
                && !(extra[t] is Exit),
        ({
            let inner = pre_spec(units, i + 1, inner_bag);
            let f = first_fail_at(units, i + 1);
            let k = if f < units.len() {
                f + 1 - (i + 1)
            } else {
                units.len() - (i + 1)
            };
            &&& i + 1 <= f <= units.len()
            &&& enters_of(inner.trace) == Seq::new(k as nat, |j: int| (i + 1 + j) as usize)
            &&& exits_of(inner.trace) == (if f < units.len() {
                Seq::new(k as nat, |j: int| (i + 1 + k - 1 - j) as usize)
            } else {
                Seq::<usize>::empty()
            })
            &&& transport_free(inner.trace)
            &&& inner.halted == (if f < units.len() {
                Some(MwFailure { index: f as usize, code: fail_code(units[f]) })
            } else {
                None::<MwFailure>
            })
            &&& inner.bag == seeds_applied(units, i + 1, f, inner_bag)
        }),
    ensures
        ({
            let pre = pre_spec(units, i, bag);
            let f = first_fail_at(units, i);
            let k = if f < units.len() {
                f + 1 - i
            } else {
                units.len() - i
            };
            &&& i <= f <= units.len()
            &&& enters_of(pre.trace) == Seq::new(k as nat, |j: int| (i + j) as usize)
            &&& exits_of(pre.trace) == (if f < units.len() {
                Seq::new(k as nat, |j: int| (i + k - 1 - j) as usize)
            } else {
                Seq::<usize>::empty()
            })
            &&& transport_free(pre.trace)
            &&& pre.halted == (if f < units.len() {
                Some(MwFailure { index: f as usize, code: fail_code(units[f]) })
            } else {
                None::<MwFailure>
            })
            &&& pre.bag == seeds_applied(units, i, f, bag)
        }),
{
    let pre = pre_spec(units, i, bag);
    let inner = pre_spec(units, i + 1, inner_bag);
    let f = first_fail_at(units, i);
    assert(f == first_fail_at(units, i + 1));
    let head = seq![Event::Enter { index: i as usize }] + extra;
    let tail: Seq<Event> = if inner.halted is Some {
        seq![Event::Exit { index: i as usize }]
    } else {
        Seq::empty()
    };
    assert(pre.trace == head + inner.trace + tail);
    lemma_filters_single(Event::Enter { index: i as usize });
    lemma_filters_concat(seq![Event::Enter { index: i as usize }], extra);
    lemma_filters_none(extra);
    lemma_filters_concat(head, inner.trace);
    lemma_filters_concat(head + inner.trace, tail);
    if inner.halted is Some {
        lemma_filters_single(Event::Exit { index: i as usize });
    } else {
        assert(enters_of(tail) =~= Seq::<usize>::empty());
        assert(exits_of(tail) =~= Seq::<usize>::empty());
    }
    let k = if f < units.len() {
        f + 1 - i
    } else {
        units.len() - i
    };
    assert(enters_of(pre.trace) =~= Seq::new(k as nat, |j: int| (i + j) as usize));
    if f < units.len() {
        assert(exits_of(pre.trace) =~= Seq::new(k as nat, |j: int| (i + k - 1 - j) as usize));
    } else {
        assert(exits_of(pre.trace) =~= Seq::<usize>::empty());
    }
    assert(transport_free(pre.trace));
    assert(seeds_applied(units, i, f, bag) == seeds_applied(
        units,
        i + 1,
        f,
        crate::chain::apply_unit(units[i], bag),
    ));
}

proof fn lemma_filters_none(s: Seq<Event>)
    requires
        forall|t: int| 0 <= t < s.len() ==> !((#[trigger] s[t]) is Enter) && !(s[t] is Exit),
    ensures
        enters_of(s) == Seq::<usize>::empty(),
        exits_of(s) == Seq::<usize>::empty(),
    decreases s.len(),
{
    if s.len() > 0 {
        lemma_filters_none(s.drop_first());
    }
}

/// Order invariant. For any chain and any transport outcome, the entry
/// events of a full invocation name the entered units in exactly
/// registration order — the first registered unit enters first — and the
/// exit events name them in exactly the reverse order — the first
/// registered unit exits last. An empty chain behaves as the transport
/// unit called directly.
pub proof fn lemma_order_invariant(
    units: Seq<Middleware>,
    bag: Map<u64, BagValue>,
    outcome: Result<Response, TransportError>,
)
    ensures
        ({
            let effect = chain_effect(units, bag, outcome);
            let k = entered_count(units);
            &&& enters_of(effect.trace) == Seq::new(k as nat, |j: int| j as usize)
            &&& exits_of(effect.trace) == Seq::new(k as nat, |j: int| (k - 1 - j) as usize)
        }),
        units.len() == 0 ==> chain_effect(units, bag, outcome).trace == seq![Event::Transport]
            && chain_effect(units, bag, outcome).result == transport_result(outcome),
{
    let pre = pre_spec(units, 0, bag);
    let f = first_fail_at(units, 0);
    let k = entered_count(units);
    lemma_pre_spec_shape(units, 0, bag);
    if pre.halted is Some {
        assert(enters_of(chain_effect(units, bag, outcome).trace) =~= Seq::new(
            k as nat,
            |j: int| j as usize,
        ));
        assert(exits_of(chain_effect(units, bag, outcome).trace) =~= Seq::new(
            k as nat,
            |j: int| (k - 1 - j) as usize,
        ));
    } else {
        let n = units.len() as int;
        let trace = pre.trace + seq![Event::Transport] + exit_run(n);
        lemma_filters_concat(pre.trace, seq![Event::Transport]);
        lemma_filters_single(Event::Transport);
        lemma_filters_concat(pre.trace + seq![Event::Transport], exit_run(n));
        lemma_exit_run_filters(n);
        assert(enters_of(trace) =~= Seq::new(k as nat, |j: int| j as usize));
        assert(exits_of(trace) =~= Seq::new(k as nat, |j: int| (k - 1 - j) as usize));
        if units.len() == 0 {
            assert(chain_effect(units, bag, outcome).trace =~= seq![Event::Transport]);
        }
    }
}

/// Short-circuit on middleware error. When unit `f` is the first to
/// refuse to delegate, the invocation reports that unit's error, the
/// transport unit and every unit inside `f` record zero invocations, and
/// every unit up to and including `f` both enters (in registration order)
/// and observes the error on the way back out (in reverse order).
pub proof fn lemma_short_circuit(
    units: Seq<Middleware>,
    bag: Map<u64, BagValue>,
    outcome: Result<Response, TransportError>,
    f: int,
)
    requires
        0 <= f < units.len(),
        units[f].is_short_circuit(),
        forall|t: int| 0 <= t < f ==> !(#[trigger] units[t]).is_short_circuit(),
    ensures
        ({
            let effect = chain_effect(units, bag, outcome);
            &&& effect.result == Err::<Response, Error>(
                Error::Middleware { code: fail_code(units[f]) },
            )
            &&& transport_free(effect.trace)
            &&& enters_of(effect.trace) == Seq::new((f + 1) as nat, |j: int| j as usize)
            &&& exits_of(effect.trace) == Seq::new((f + 1) as nat, |j: int| (f - j) as usize)
        }),
{
    lemma_first_fail_found(units, 0, f);
    lemma_pre_spec_shape(units, 0, bag);
}

proof fn lemma_first_fail_found(units: Seq<Middleware>, i: int, f: int)
    requires
        0 <= i <= f < units.len(),
        units[f] is Fail,
        forall|t: int| i <= t < f ==> !((#[trigger] units[t]) is Fail),
    ensures
        first_fail_at(units, i) == f,
    decreases f - i,
{
    if i < f {
        lemma_first_fail_found(units, i + 1, f);
    }
}

/// Context propagation. A value seeded into the bag before the chain runs
/// — by the initialiser chain, or by the caller — is visible, unmodified,
/// to unit `j` for every `j`, and survives the whole run, provided no
/// unit writes that key. (Each request owns its bag exclusively, so no
/// other request can disturb it.)
pub proof fn lemma_context_propagation(
    units: Seq<Middleware>,
    bag: Map<u64, BagValue>,
    key: u64,
    value: BagValue,
    j: int,
)
    requires
        bag.contains_key(key),
        bag[key] == value,
        forall|t: int| 0 <= t < units.len() ==> !(#[trigger] units[t]).writes_key(key),
        0 <= j <= units.len(),
    ensures
        seeds_applied(units, 0, j, bag).contains_key(key),
        seeds_applied(units, 0, j, bag)[key] == value,
        pre_spec(units, 0, bag).bag.contains_key(key),
        pre_spec(units, 0, bag).bag[key] == value,
{
    lemma_seeds_preserve(units, 0, j, bag, key, value);
    lemma_pre_spec_shape(units, 0, bag);
    let f = first_fail_at(units, 0);
    lemma_seeds_preserve(units, 0, f, bag, key, value);
}

proof fn lemma_seeds_preserve(
    units: Seq<Middleware>,
    i: int,
    j: int,
    bag: Map<u64, BagValue>,
    key: u64,
    value: BagValue,
)
    requires
        bag.contains_key(key),
        bag[key] == value,
        forall|t: int| 0 <= t < units.len() ==> !(#[trigger] units[t]).writes_key(key),
        0 <= i,
        j <= units.len(),
    ensures
        seeds_applied(units, i, j, bag).contains_key(key),
        seeds_applied(units, i, j, bag)[key] == value,
    decreases j - i,
{
    if i < j {
        let stepped = crate::chain::apply_unit(units[i], bag);
        assert(stepped.contains_key(key) && stepped[key] == value);
        lemma_seeds_preserve(units, i + 1, j, stepped, key, value);
    }
}

} // verus!
