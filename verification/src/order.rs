//! What holds of an ordered parallel map, whatever the workers do.
//!
//! The statements are about the [`Window`] of an engine. They hold of every
//! window that an engine can get into, since every step of the engine is one
//! of the steps defined there and starts from a fresh window.
use crate::window::{Arrival, Failure, Stage, Window};
use vstd::prelude::*;

verus! {

/// The results reach the consumer in the order of the items: if every
/// accepted result is the image under `f` of the item submitted under its
/// index, then what was delivered is `f` applied, one by one, to the first
/// items submitted. The order in which the results came back plays no part,
/// and neither does the in-flight limit.
pub proof fn lemma_delivered_in_order<T, O>(w: Window<T, O>, f: spec_fn(T) -> O)
    requires
        w.wf(),
        w.faithful(f),
    ensures
        w.delivered() == w.submitted.take(w.next_rx as int).map_values(f),
{
    let expected = w.submitted.take(w.next_rx as int).map_values(f);
    assert forall|k: int| 0 <= k < w.next_rx implies w.delivered()[k] == expected[k] by {
        assert(w.received.dom().contains(k));
    }
    assert(w.delivered() =~= expected);
}

/// An engine that draws from `source` goes on drawing from it, as long as
/// upstream is drawn on in order and without loss.
pub proof fn lemma_keeps_drawing<T, O>(
    w: Window<T, O>,
    rest: Seq<T>,
    later: Window<T, O>,
    later_rest: Seq<T>,
    source: Seq<T>,
)
    requires
        w.extends_to(later),
        w.draws_from(source, rest),
        w.keeps_source(rest, later, later_rest),
    ensures
        later.draws_from(source, later_rest),
{
    assert((later.submitted + later_rest).len() == (w.submitted + rest).len());
}

/// An ordered parallel map is a map: where the engine draws from `source`
/// and every accepted result is the image under `f` of the item submitted
/// under its index, what was delivered is `f` applied, one by one, to the
/// first items of the source, and at the end to all of them.
pub proof fn lemma_map_of_source<T, O>(
    w: Window<T, O>,
    source: Seq<T>,
    rest: Seq<T>,
    f: spec_fn(T) -> O,
)
    requires
        w.wf(),
        w.faithful(f),
        w.draws_from(source, rest),
    ensures
        w.next_rx <= source.len(),
        w.delivered() == source.take(w.next_rx as int).map_values(f),
        w.exhausted() ==> w.delivered() == source.map_values(f),
{
    lemma_delivered_in_order(w, f);
    assert(w.submitted.take(w.next_rx as int) =~= source.take(w.next_rx as int));
    if w.exhausted() {
        assert(source.take(w.next_rx as int) =~= source);
    }
}

/// At the end nothing is missing: an exhausted window has delivered a result
/// for every item submitted, holds no result back, and under the hypothesis
/// of [`lemma_delivered_in_order`] has delivered `f` of every item.
pub proof fn lemma_end_is_complete<T, O>(w: Window<T, O>, f: spec_fn(T) -> O)
    requires
        w.wf(),
        w.exhausted(),
    ensures
        w.delivered().len() == w.submitted.len(),
        w.parked() == Map::<int, O>::empty(),
        w.faithful(f) ==> w.delivered() == w.submitted.map_values(f),
{
    assert(w.parked() =~= Map::<int, O>::empty());
    if w.faithful(f) {
        lemma_delivered_in_order(w, f);
        assert(w.submitted.take(w.next_rx as int) =~= w.submitted);
    }
}

/// The buffer of early results stays small: however the results come back,
/// fewer results are held back than items may be in flight.
pub proof fn lemma_parked_is_bounded<T, O>(w: Window<T, O>)
    requires
        w.wf(),
    ensures
        w.parked().dom().finite(),
        w.parked().dom().len() <= w.in_flight() <= w.limit,
        w.ready() || w.in_flight() == 0 || w.parked().dom().len() < w.in_flight(),
{
    let lo = w.next_rx as int;
    let hi = w.next_tx() as int;
    let span = vstd::set_lib::set_int_range(lo, hi);
    vstd::set_lib::lemma_int_range(lo, hi);
    assert(w.parked().dom().subset_of(span));
    vstd::set_lib::lemma_len_subset(w.parked().dom(), span);
    if !w.ready() && w.in_flight() > 0 {
        let rest = vstd::set_lib::set_int_range(lo + 1, hi);
        vstd::set_lib::lemma_int_range(lo + 1, hi);
        assert(w.parked().dom().subset_of(rest));
        vstd::set_lib::lemma_len_subset(w.parked().dom(), rest);
    }
}

/// Every step that the engine takes keeps the bookkeeping consistent and
/// continues the history: submitting while there is room, closing, failing,
/// releasing a result that is ready, and settling whatever arrived.
pub proof fn lemma_steps_keep_wf<T, O>(
    w: Window<T, O>,
    item: T,
    failure: Failure,
    arrival: Arrival<O>,
)
    requires
        w.wf(),
    ensures
        w.may_submit() ==> w.submit(item).wf() && w.extends_to(w.submit(item)),
        w.close().wf() && w.extends_to(w.close()),
        w.fail(failure).wf() && w.extends_to(w.fail(failure)),
        w.ready() ==> w.release().wf() && w.extends_to(w.release()),
        w.settle(arrival).wf() && w.extends_to(w.settle(arrival)),
{
    if let Arrival::Result { index, value } = arrival {
        let recorded = w.accept(index as int, value);
        assert(recorded.wf());
        assert(w.extends_to(recorded));
    }
}

/// Histories continue one another in a row: what continues a continuation of
/// a history continues the history.
pub proof fn lemma_extends_in_a_row<T, O>(a: Window<T, O>, b: Window<T, O>, c: Window<T, O>)
    requires
        a.extends_to(b),
        b.extends_to(c),
    ensures
        a.extends_to(c),
{
    assert(a.received.submap_of(c.received)) by {
        assert forall|k: int| #[trigger] a.received.dom().contains(k) implies {
            &&& c.received.dom().contains(k)
            &&& a.received[k] == c.received[k]
        } by {
            assert(a.received.submap_of(b.received));
            assert(b.received.dom().contains(k));
            assert(b.received.submap_of(c.received));
            assert(c.received.dom().contains(k));
        }
    }
    assert(a.submitted.is_prefix_of(c.submitted)) by {
        assert forall|k: int| 0 <= k < a.submitted.len() implies a.submitted[k]
            == c.submitted[k] by {
            assert(a.submitted[k] == b.submitted[k]);
            assert(b.submitted[k] == c.submitted[k]);
        }
    }
}

/// Upstream is drawn on in a row as it is step by step: two steps one after
/// the other, of which the second leaves upstream alone if the first has
/// failed or has seen its end, make up a step of the same kind.
pub proof fn lemma_draws_on_in_a_row<T, O>(
    a: Window<T, O>,
    a_rest: Seq<T>,
    b: Window<T, O>,
    b_rest: Seq<T>,
    c: Window<T, O>,
    c_rest: Seq<T>,
)
    requires
        a.extends_to(b),
        b.extends_to(c),
        a.draws_on(a_rest, b, b_rest),
        b.draws_on(b_rest, c, c_rest),
        b.failure is Some ==> c.submitted == b.submitted && c_rest == b_rest,
        b.upstream_done ==> c_rest == b_rest,
    ensures
        a.draws_on(a_rest, c, c_rest),
{
    if b.failure is Some {
        assert(c.failure == b.failure);
    } else {
        assert(a.failure is None);
        assert(a.keeps_source(a_rest, b, b_rest));
        assert(a.submitted + a_rest == b.submitted + b_rest);
    }
}

/// An engine goes through its stages one way only: once started it does not
/// become unstarted, a failure is final, and an engine that is exhausted
/// stays so unless it fails.
pub proof fn lemma_stage_moves_forward<T, O>(w: Window<T, O>, later: Window<T, O>)
    requires
        w.wf(),
        later.wf(),
        w.extends_to(later),
    ensures
        w.stage() != Stage::NotStarted ==> later.stage() != Stage::NotStarted,
        w.stage() == Stage::Panicked ==> later.stage() == Stage::Panicked,
        w.stage() == Stage::Exhausted && later.submitted == w.submitted ==> later.stage()
            == Stage::Exhausted || later.stage() == Stage::Panicked,
{
}

/// Which of two results comes back first makes no difference to the record,
/// as long as both are awaited.
pub proof fn lemma_accept_commutes<T, O>(w: Window<T, O>, i: int, u: O, j: int, v: O)
    requires
        w.awaits(i),
        w.awaits(j),
        i != j,
    ensures
        w.accept(i, u).accept(j, v) == w.accept(j, v).accept(i, u),
{
    assert(w.received.insert(i, u).insert(j, v) =~= w.received.insert(j, v).insert(i, u));
}

/// Two maps in a row compose: where a second engine is fed what a first one
/// delivers, and each is faithful to its function, the second delivers the
/// second function applied to the first, item by item in upstream order.
pub proof fn lemma_stages_compose<T, U, O>(
    first: Window<T, U>,
    second: Window<U, O>,
    f: spec_fn(T) -> U,
    g: spec_fn(U) -> O,
)
    requires
        first.wf(),
        second.wf(),
        first.faithful(f),
        second.faithful(g),
        second.submitted.is_prefix_of(first.delivered()),
    ensures
        second.delivered() == first.submitted.take(second.next_rx as int).map_values(
            |item: T| g(f(item)),
        ),
{
    lemma_delivered_in_order(first, f);
    lemma_delivered_in_order(second, g);
    let expected = first.submitted.take(second.next_rx as int).map_values(|item: T| g(f(item)));
    assert forall|k: int| 0 <= k < second.next_rx implies second.delivered()[k] == expected[k] by {
        assert(second.received.dom().contains(k));
        assert(second.submitted[k] == first.delivered()[k]);
        assert(first.received.dom().contains(k));
    }
    assert(second.delivered() =~= expected);
}

/// A stage that only hands on what it is given, in the order given, can
/// stand between two engines without being noticed: where the second engine
/// is fed a prefix of what such a stage was fed by the first, the outcome is
/// that of [`lemma_stages_compose`].
pub proof fn lemma_relay_is_transparent<T, U, O>(
    first: Window<T, U>,
    relayed: Seq<U>,
    second: Window<U, O>,
    f: spec_fn(T) -> U,
    g: spec_fn(U) -> O,
)
    requires
        first.wf(),
        second.wf(),
        first.faithful(f),
        second.faithful(g),
        relayed.is_prefix_of(first.delivered()),
        second.submitted.is_prefix_of(relayed),
    ensures
        second.delivered() == first.submitted.take(second.next_rx as int).map_values(
            |item: T| g(f(item)),
        ),
{
    assert(second.submitted.is_prefix_of(first.delivered())) by {
        assert forall|k: int| 0 <= k < second.submitted.len() implies second.submitted[k]
            == first.delivered()[k] by {
            assert(second.submitted[k] == relayed[k]);
        }
    }
    lemma_stages_compose(first, second, f, g);
}

/// Taking what is ready changes nothing but the consumer's position, and
/// stops only where the awaited result is missing.
pub proof fn lemma_drain<T, O>(w: Window<T, O>)
    requires
        w.wf(),
    ensures
        w.drain().wf(),
        w.extends_to(w.drain()),
        w.drain() == (Window { next_rx: w.drain().next_rx, ..w }),
        !w.drain().ready(),
    decreases w.next_tx() - w.next_rx,
{
    if w.ready() && w.next_rx < w.next_tx() {
        lemma_drain(w.release());
    }
}

/// What [`lemma_any_order_delivers_all`] needs of every prefix of the
/// arrivals: the record is the one at the start plus the arrivals so far.
proof fn lemma_replay_prefix<T, O>(w: Window<T, O>, arrivals: Seq<(int, O)>)
    requires
        w.wf(),
        w.failure is None,
        forall|i: int| 0 <= i < arrivals.len() ==> w.awaits(#[trigger] arrivals[i].0),
        forall|i: int, j: int|
            0 <= i < j < arrivals.len() ==> #[trigger] arrivals[i].0 != #[trigger] arrivals[j].0,
    ensures
        w.replay(arrivals).wf(),
        w.replay(arrivals).failure is None,
        !w.replay(arrivals).ready(),
        w.replay(arrivals) == (Window {
            next_rx: w.replay(arrivals).next_rx,
            received: w.replay(arrivals).received,
            ..w
        }),
        w.next_rx <= w.replay(arrivals).next_rx,
        w.received.submap_of(w.replay(arrivals).received),
        forall|i: int|
            0 <= i < arrivals.len() ==> w.replay(arrivals).received.dom().contains(
                #[trigger] arrivals[i].0,
            ) && w.replay(arrivals).received[arrivals[i].0] == arrivals[i].1,
        forall|k: int| #[trigger]
            w.replay(arrivals).received.dom().contains(k) ==> w.received.dom().contains(k)
                || exists|i: int| 0 <= i < arrivals.len() && #[trigger] arrivals[i].0 == k,
    decreases arrivals.len(),
{
    if arrivals.len() == 0 {
        lemma_drain(w);
    } else {
        let earlier = arrivals.drop_last();
        let (index, value) = arrivals.last();
        let last = arrivals.len() - 1;
        assert forall|i: int| 0 <= i < earlier.len() implies w.awaits(
            #[trigger] earlier[i].0,
        ) by {
            assert(earlier[i] == arrivals[i]);
        }
        assert forall|i: int, j: int| 0 <= i < j < earlier.len() implies #[trigger] earlier[i].0
            != #[trigger] earlier[j].0 by {
            assert(earlier[i] == arrivals[i]);
            assert(earlier[j] == arrivals[j]);
        }
        lemma_replay_prefix(w, earlier);
        let before = w.replay(earlier);
        assert(w.awaits(arrivals[last].0));
        // the result is still missing, so the consumer has not got past it
        assert(!before.received.dom().contains(index)) by {
            if before.received.dom().contains(index) {
                let i = choose|i: int| 0 <= i < earlier.len() && #[trigger] earlier[i].0 == index;
                assert(earlier[i] == arrivals[i]);
                assert(arrivals[i].0 != arrivals[last].0);
            }
        }
        assert(before.awaits(index));
        let recorded = before.accept(index, value);
        assert(recorded.wf());
        lemma_drain(recorded);
        let after = w.replay(arrivals);
        assert(after == recorded.drain());
        assert forall|i: int| 0 <= i < arrivals.len() implies after.received.dom().contains(
            #[trigger] arrivals[i].0,
        ) && after.received[arrivals[i].0] == arrivals[i].1 by {
            if i < last {
                assert(earlier[i] == arrivals[i]);
                assert(before.received.dom().contains(earlier[i].0));
            }
        }
        assert forall|k: int| #[trigger] after.received.dom().contains(k) implies {
            ||| w.received.dom().contains(k)
            ||| exists|i: int| 0 <= i < arrivals.len() && #[trigger] arrivals[i].0 == k
        } by {
            if k == index {
                assert(arrivals[last].0 == k);
            } else {
                assert(before.received.dom().contains(k));
                if !w.received.dom().contains(k) {
                    let i = choose|i: int| 0 <= i < earlier.len() && #[trigger] earlier[i].0 == k;
                    assert(earlier[i] == arrivals[i]);
                }
            }
        }
        assert(w.received.submap_of(after.received)) by {
            assert forall|k: int| w.received.dom().contains(k) implies {
                &&& #[trigger] after.received.dom().contains(k)
                &&& w.received[k] == after.received[k]
            } by {
                assert(before.received.dom().contains(k));
            }
        }
    }
}

/// The order in which results come back does not matter: once each result
/// that was missing has come back, in whatever order, the consumer has been
/// handed a result for every item submitted, each the one that came back
/// under the item's index.
pub proof fn lemma_any_order_delivers_all<T, O>(w: Window<T, O>, arrivals: Seq<(int, O)>)
    requires
        w.wf(),
        w.failure is None,
        forall|i: int| 0 <= i < arrivals.len() ==> w.awaits(#[trigger] arrivals[i].0),
        forall|i: int, j: int|
            0 <= i < j < arrivals.len() ==> #[trigger] arrivals[i].0 != #[trigger] arrivals[j].0,
        forall|k: int| #[trigger]
            w.awaits(k) ==> exists|i: int| 0 <= i < arrivals.len() && #[trigger] arrivals[i].0 == k,
    ensures
        w.replay(arrivals).wf(),
        w.replay(arrivals).failure is None,
        w.replay(arrivals).submitted == w.submitted,
        w.replay(arrivals).next_rx == w.next_tx(),
        w.replay(arrivals).delivered().len() == w.submitted.len(),
        forall|k: int|
            0 <= k < w.next_rx ==> #[trigger] w.replay(arrivals).delivered()[k] == w.delivered()[k],
        forall|i: int|
            0 <= i < arrivals.len() ==> w.replay(arrivals).delivered()[#[trigger] arrivals[i].0]
                == arrivals[i].1,
{
    lemma_replay_prefix(w, arrivals);
    let end = w.replay(arrivals);
    if end.next_rx < w.next_tx() {
        let k = end.next_rx as int;
        if !w.received.dom().contains(k) {
            assert(w.awaits(k));
            let i = choose|i: int| 0 <= i < arrivals.len() && #[trigger] arrivals[i].0 == k;
            assert(end.received.dom().contains(arrivals[i].0));
        } else {
            assert(end.received.dom().contains(k));
        }
        assert(end.ready());
    }
    assert forall|k: int| 0 <= k < w.next_rx implies #[trigger] end.delivered()[k]
        == w.delivered()[k] by {
        assert(w.received.dom().contains(k));
        assert(end.received.dom().contains(k));
    }
    assert forall|i: int| 0 <= i < arrivals.len() implies end.delivered()[#[trigger] arrivals[i].0]
        == arrivals[i].1 by {
        assert(w.awaits(arrivals[i].0));
    }
}

/// A readahead keeps the order of its upstream, provided the channel hands
/// over what is sent in the order sent: if the producer has sent the first
/// items of `source` and the consumer has been handed the first items sent,
/// then the consumer has been handed the first items of the source, and all
/// of them once upstream is exhausted and nothing sent is still under way.
pub proof fn lemma_relay_keeps_order<T>(
    source: Seq<T>,
    forwarded: Seq<T>,
    rest: Seq<T>,
    delivered: Seq<T>,
)
    requires
        forwarded + rest == source,
        delivered.is_prefix_of(forwarded),
    ensures
        delivered.is_prefix_of(source),
        rest.len() == 0 && delivered.len() == forwarded.len() ==> delivered == source,
{
    assert forall|k: int| 0 <= k < delivered.len() implies delivered[k] == source[k] by {
        assert(delivered[k] == forwarded[k]);
        assert((forwarded + rest)[k] == forwarded[k]);
    }
    if rest.len() == 0 && delivered.len() == forwarded.len() {
        assert((forwarded + rest).len() == forwarded.len());
        assert(delivered =~= source);
    }
}

} // verus!
