//! Readahead: upstream is pulled on a thread of its own and its items are
//! handed to the consumer through one bounded channel, in the order pulled.
//!
//! The consumer's side is [`Readahead`]. When it is started it parts with the
//! upstream iterator, which goes to a [`Producer`] together with the sending
//! end of the channel and a guard on the shared flag. The producer is stepped
//! on the background thread until upstream ends or the consumer is gone.
use crate::channel::MAX_CAPACITY;
use crate::guard::{is_raised, new_flag, share_flag, DropIndicator};
use crate::parallel_map::size_hint_of;
use crate::window::{Failure, Stage};
use crossbeam_channel::{Receiver, Sender};
use std::sync::atomic::AtomicBool;
use std::sync::Arc;
use vstd::prelude::*;
use vstd::std_specs::iter::IteratorSpec;

verus! {

/// The capacity of the channel for a requested buffer size: the size asked
/// for, but at least one slot and at most the largest capacity of a channel.
pub open spec fn resolved_capacity(requested: usize) -> usize {
    if requested < 1 {
        1
    } else if requested > MAX_CAPACITY {
        MAX_CAPACITY
    } else {
        requested
    }
}

/// Computes [`resolved_capacity`].
pub fn resolve_capacity(requested: usize) -> (capacity: usize)
    ensures
        capacity == resolved_capacity(requested),
        1 <= capacity <= MAX_CAPACITY,
{
    if requested < 1 {
        1
    } else if requested > MAX_CAPACITY {
        MAX_CAPACITY
    } else {
        requested
    }
}

/// What a wait on the channel from the producer ended with.
#[derive(Debug, PartialEq, Eq)]
pub enum Handoff<T> {
    /// The producer handed over `item`.
    Item(T),
    /// The channel is empty and the producer holds it no more; `panicked`
    /// tells whether the flag was found raised afterwards.
    Closed { panicked: bool },
}

/// What the consumer is told after `handoff` at `stage`: the end and a
/// failure are told again once they have been told; before that an item is
/// handed on, and a closed channel is the end or a failure as the flag says.
pub open spec fn answer_at<T>(stage: Stage, handoff: Handoff<T>) -> Result<Option<T>, Failure> {
    match stage {
        Stage::Exhausted => Ok(None),
        Stage::Panicked => Err(Failure::WorkerPanicked),
        _ => match handoff {
            Handoff::Item(item) => Ok(Some(item)),
            Handoff::Closed { panicked } => if panicked {
                Err(Failure::WorkerPanicked)
            } else {
                Ok(None)
            },
        },
    }
}

/// The stage after `handoff` at `stage`.
pub open spec fn stage_after<T>(stage: Stage, handoff: Handoff<T>) -> Stage {
    match stage {
        Stage::Exhausted => Stage::Exhausted,
        Stage::Panicked => Stage::Panicked,
        _ => match handoff {
            Handoff::Item(_) => Stage::Running,
            Handoff::Closed { panicked } => if panicked {
                Stage::Panicked
            } else {
                Stage::Exhausted
            },
        },
    }
}

/// What has been handed to the consumer after `handoff` at `stage`.
pub open spec fn delivered_after<T>(delivered: Seq<T>, stage: Stage, handoff: Handoff<T>) -> Seq<
    T,
> {
    match (stage, handoff) {
        (Stage::Running, Handoff::Item(item)) => delivered.push(item),
        _ => delivered,
    }
}

/// The upstream side of a readahead: the iterator, the sending end of the
/// channel, and the guard on the flag.
///
/// A producer is made to be moved to a thread of its own. There it is asked
/// to [`step`](Self::step) until it answers `false`, and then to
/// [`finish`](Self::finish). A producer that is dropped without finishing, as
/// happens when upstream panics, raises the flag.
#[verifier::reject_recursive_types(I)]
pub struct Producer<I> where I: Iterator {
    // first, so that a producer that dies raises the flag before it lets go
    // of the channel
    drop_indicator: DropIndicator,
    iter: I,
    tx: Sender<I::Item>,
    // every item sent, in order
    forwarded: Ghost<Seq<I::Item>>,
}

impl<I> Producer<I> where I: Iterator {
    /// The upstream iterator, as far as it has not been consumed.
    pub closed spec fn upstream(&self) -> I {
        self.iter
    }

    /// The producer's guard.
    pub closed spec fn guard(&self) -> DropIndicator {
        self.drop_indicator
    }

    /// The items sent to the consumer so far, in order.
    pub closed spec fn forwarded(&self) -> Seq<I::Item> {
        self.forwarded@
    }

    /// Pulls one item from upstream and sends it to the consumer. Answers
    /// whether to go on: `false` once upstream has ended, and also when the
    /// item could not be sent because the consumer is gone.
    ///
    /// Upstream is asked once, whatever becomes of the item.
    pub fn step(&mut self) -> (more: bool)
        ensures
            final(self).guard() == old(self).guard(),
            old(self).forwarded().is_prefix_of(final(self).forwarded()),
            more ==> final(self).forwarded().len() == old(self).forwarded().len() + 1,
            !more ==> final(self).forwarded() == old(self).forwarded(),
            old(self).upstream().obeys_prophetic_iter_laws() ==> {
                &&& final(self).upstream().obeys_prophetic_iter_laws()
                &&& old(self).upstream().remaining().len() == 0 ==> !more
                    && final(self).upstream().remaining().len() == 0
                &&& old(self).upstream().remaining().len() > 0
                    ==> final(self).upstream().remaining()
                    == old(self).upstream().remaining().drop_first()
                &&& more ==> final(self).forwarded() == old(self).forwarded().push(
                    old(self).upstream().remaining()[0],
                )
                &&& more ==> final(self).forwarded() + final(self).upstream().remaining()
                    == old(self).forwarded() + old(self).upstream().remaining()
            },
    {
        let ghost rest = self.iter.remaining();
        let ghost so_far = self.forwarded@;
        match self.iter.next() {
            Some(item) => {
                let ghost sent = item;
                match self.tx.send(item) {
                    Ok(()) => {
                        proof {
                            self.forwarded@ = self.forwarded@.push(sent);
                            if old(self).upstream().obeys_prophetic_iter_laws() {
                                assert(so_far.push(rest[0]) + rest.drop_first() =~= so_far + rest);
                            }
                        }
                        true
                    },
                    // don't panic if the receiver disconnects
                    Err(_) => false,
                }
            },
            None => false,
        }
    }

    /// Ends the producer in the ordinary way: its guard is cancelled, so the
    /// flag stays as it is. Giving up the channel tells the consumer that no
    /// more items will come.
    pub fn finish(self) {
        self.drop_indicator.cancel();
    }

    /// Forwards up to `budget` items, one [`step`](Self::step) after the
    /// other. A producer that is told to stop is finished, and nothing is
    /// handed back; a producer that has used up its budget is handed back as
    /// it is, to be run again.
    pub fn run(self, budget: usize) -> (rest: Option<Self>)
        ensures
            budget == 0 ==> rest == Some(self),
            self.upstream().obeys_prophetic_iter_laws() && self.upstream().remaining().len()
                < budget ==> rest is None,
            rest matches Some(producer) ==> {
                &&& producer.guard() == self.guard()
                &&& producer.forwarded().len() == self.forwarded().len() + budget
                &&& self.forwarded().is_prefix_of(producer.forwarded())
                &&& self.upstream().obeys_prophetic_iter_laws() ==> {
                    &&& producer.upstream().obeys_prophetic_iter_laws()
                    &&& producer.forwarded() + producer.upstream().remaining()
                        == self.forwarded() + self.upstream().remaining()
                    &&& producer.forwarded() == self.forwarded()
                        + self.upstream().remaining().take(budget as int)
                    &&& producer.upstream().remaining() == self.upstream().remaining().skip(
                        budget as int,
                    )
                }
            },
    {
        let mut producer = self;
        let mut left = budget;
        while left > 0
            invariant
                left <= budget,
                left == budget ==> producer == self,
                producer.guard() == self.guard(),
                producer.forwarded().len() == self.forwarded().len() + (budget - left),
                self.forwarded().is_prefix_of(producer.forwarded()),
                self.upstream().obeys_prophetic_iter_laws() ==> {
                    &&& producer.upstream().obeys_prophetic_iter_laws()
                    &&& budget - left <= self.upstream().remaining().len()
                    &&& producer.forwarded() == self.forwarded()
                        + self.upstream().remaining().take(budget - left)
                    &&& producer.upstream().remaining() == self.upstream().remaining().skip(
                        budget - left,
                    )
                },
            decreases left,
        {
            let ghost before = producer.forwarded();
            let ghost ahead = producer.upstream().remaining();
            if !producer.step() {
                producer.finish();
                return None;
            }
            proof {
                assert forall|k: int| 0 <= k < self.forwarded().len() implies self.forwarded()[k]
                    == producer.forwarded()[k] by {
                    assert(self.forwarded()[k] == before[k]);
                    assert(before[k] == producer.forwarded()[k]);
                }
                if self.upstream().obeys_prophetic_iter_laws() {
                    let whole = self.upstream().remaining();
                    let done = budget - left;
                    assert(ahead.len() > 0);
                    assert(whole.take(done).push(ahead[0]) =~= whole.take(done + 1));
                    assert((self.forwarded() + whole.take(done)).push(ahead[0])
                        =~= self.forwarded() + whole.take(done + 1));
                    assert(ahead.drop_first() =~= whole.skip(done + 1));
                }
            }
            left -= 1;
        }
        proof {
            if self.upstream().obeys_prophetic_iter_laws() {
                let whole = self.upstream().remaining();
                assert(whole.take(budget as int) + whole.skip(budget as int) =~= whole);
                assert((self.forwarded() + whole.take(budget as int)) + whole.skip(budget as int)
                    =~= self.forwarded() + whole);
            }
        }
        Some(producer)
    }
}

/// The receiving end of the channel, once there is one.
#[verifier::reject_recursive_types(T)]
struct ReadaheadInner<T> {
    rx: Receiver<T>,
}

/// An iterator adapter that runs the inner iterator on another thread.
#[verifier::reject_recursive_types(I)]
pub struct Readahead<I> where I: Iterator {
    iter: Option<I>,
    iter_size_hint: (usize, Option<usize>),
    buffer_size: usize,
    inner: Option<ReadaheadInner<I::Item>>,
    worker_panicked: Arc<AtomicBool>,
    // set once the end or a failure has been told
    outcome: Option<Result<(), Failure>>,
    // every item handed to the consumer, in order
    delivered: Ghost<Seq<I::Item>>,
}

impl<I> Readahead<I> where I: Iterator {
    /// Where this readahead stands.
    pub closed spec fn stage(&self) -> Stage {
        match self.outcome {
            Some(Ok(())) => Stage::Exhausted,
            Some(Err(_)) => Stage::Panicked,
            None => if self.inner is Some {
                Stage::Running
            } else {
                Stage::NotStarted
            },
        }
    }

    /// The upstream iterator, as long as the readahead is not started.
    pub closed spec fn upstream(&self) -> Option<I> {
        self.iter
    }

    /// The buffer size that was asked for.
    pub closed spec fn requested(&self) -> usize {
        self.buffer_size
    }

    /// The flag that the producer's guard raises.
    pub closed spec fn flag(&self) -> Arc<AtomicBool> {
        self.worker_panicked
    }

    /// The bounds that upstream gave for its length when it was wrapped.
    pub closed spec fn hint(&self) -> (usize, Option<usize>) {
        self.iter_size_hint
    }

    /// The items handed to the consumer so far, in the order it got them.
    pub closed spec fn delivered(&self) -> Seq<I::Item> {
        self.delivered@
    }

    /// The fields agree with the stage: upstream is held just as long as the
    /// readahead is not started, and a channel exists from then on.
    pub closed spec fn wf(&self) -> bool {
        &&& self.iter is Some <==> self.inner is None
        &&& self.outcome is Some ==> self.inner is Some
        &&& self.outcome matches Some(Err(failure)) ==> failure == Failure::WorkerPanicked
    }

    /// A readahead over `iter` that is not started: nothing is pulled and no
    /// channel exists until it is.
    pub fn new(iter: I, buffer_size: usize) -> (readahead: Self)
        ensures
            readahead.wf(),
            readahead.stage() == Stage::NotStarted,
            readahead.upstream() == Some(iter),
            readahead.requested() == buffer_size,
            readahead.delivered() == Seq::<I::Item>::empty(),
    {
        Self {
            iter_size_hint: size_hint_of(&iter),
            iter: Some(iter),
            buffer_size,
            inner: None,
            worker_panicked: new_flag(),
            outcome: None,
            delivered: Ghost(Seq::empty()),
        }
    }

    /// Starts the readahead, if it is not started: creates the channel and
    /// hands out the producer, which takes upstream with it and holds an
    /// armed guard on the flag. The producer is to be run on another thread.
    ///
    /// A readahead that is started already is left as it is, and no producer
    /// is handed out a second time.
    pub fn ensure_started(&mut self) -> (producer: Option<Producer<I>>)
        requires
            old(self).wf(),
        ensures
            final(self).wf(),
            final(self).flag() == old(self).flag(),
            final(self).hint() == old(self).hint(),
            final(self).requested() == old(self).requested(),
            final(self).delivered() == old(self).delivered(),
            final(self).upstream() is None,
            match producer {
                Some(p) => {
                    &&& old(self).stage() == Stage::NotStarted
                    &&& final(self).stage() == Stage::Running
                    &&& Some(p.upstream()) == old(self).upstream()
                    &&& p.guard().armed()
                    &&& p.guard().flag() == final(self).flag()
                    &&& p.forwarded() == Seq::<I::Item>::empty()
                },
                None => {
                    &&& old(self).stage() != Stage::NotStarted
                    &&& final(self).stage() == old(self).stage()
                },
            },
    {
        match self.iter.take() {
            Some(iter) => {
                let (tx, rx) = crossbeam_channel::bounded(resolve_capacity(self.buffer_size));
                let drop_indicator = DropIndicator::new(share_flag(&self.worker_panicked));
                self.inner = Some(ReadaheadInner { rx });
                Some(Producer { drop_indicator, iter, tx, forwarded: Ghost(Seq::empty()) })
            },
            None => None,
        }
    }

    /// Starts the readahead eagerly, without waiting for the first pull. The
    /// producer comes back with it when this call was the one that started it.
    pub fn started(self) -> (parts: (Self, Option<Producer<I>>))
        requires
            self.wf(),
        ensures
            parts.0.wf(),
            parts.0.flag() == self.flag(),
            parts.0.hint() == self.hint(),
            parts.0.requested() == self.requested(),
            parts.0.delivered() == self.delivered(),
            parts.0.upstream() is None,
            match parts.1 {
                Some(p) => {
                    &&& self.stage() == Stage::NotStarted
                    &&& parts.0.stage() == Stage::Running
                    &&& Some(p.upstream()) == self.upstream()
                    &&& p.guard().armed()
                    &&& p.guard().flag() == self.flag()
                    &&& p.forwarded() == Seq::<I::Item>::empty()
                },
                None => {
                    &&& self.stage() != Stage::NotStarted
                    &&& parts.0.stage() == self.stage()
                },
            },
    {
        let mut readahead = self;
        let producer = readahead.ensure_started();
        (readahead, producer)
    }

    /// Takes in what a wait on the channel ended with, and says what the
    /// consumer is to be told: the item; the end, if the channel was closed
    /// with the flag lowered; a failure, if it was closed with the flag
    /// raised. Once the end or a failure has been told, it is told again
    /// whatever arrives.
    pub fn settle(&mut self, handoff: Handoff<I::Item>) -> (pulled: Result<
        Option<I::Item>,
        Failure,
    >)
        requires
            old(self).wf(),
            old(self).stage() != Stage::NotStarted,
        ensures
            final(self).wf(),
            final(self).flag() == old(self).flag(),
            final(self).hint() == old(self).hint(),
            final(self).requested() == old(self).requested(),
            final(self).upstream() == old(self).upstream(),
            pulled == answer_at(old(self).stage(), handoff),
            final(self).stage() == stage_after(old(self).stage(), handoff),
            final(self).delivered() == delivered_after(
                old(self).delivered(),
                old(self).stage(),
                handoff,
            ),
    {
        match self.outcome {
            Some(Ok(())) => Ok(None),
            Some(Err(failure)) => Err(failure),
            None => match handoff {
                Handoff::Item(item) => {
                    proof {
                        self.delivered@ = self.delivered@.push(item);
                    }
                    Ok(Some(item))
                },
                Handoff::Closed { panicked } => {
                    if panicked {
                        self.outcome = Some(Err(Failure::WorkerPanicked));
                        Err(Failure::WorkerPanicked)
                    } else {
                        self.outcome = Some(Ok(()));
                        Ok(None)
                    }
                },
            },
        }
    }

    /// Waits for the next item from the producer.
    ///
    /// The readahead has to be started. Which item arrives is the producer's
    /// doing; whatever arrives is taken in as [`settle`](Self::settle) says.
    /// Once the end or a failure has been told, the channel is not asked
    /// again.
    pub fn next(&mut self) -> (pulled: Result<Option<I::Item>, Failure>)
        requires
            old(self).wf(),
            old(self).stage() != Stage::NotStarted,
        ensures
            final(self).wf(),
            final(self).flag() == old(self).flag(),
            final(self).hint() == old(self).hint(),
            final(self).requested() == old(self).requested(),
            final(self).upstream() == old(self).upstream(),
            final(self).stage() != Stage::NotStarted,
            exists|handoff: Handoff<I::Item>|
                {
                    &&& pulled == answer_at(old(self).stage(), handoff)
                    &&& final(self).stage() == #[trigger] stage_after(old(self).stage(), handoff)
                    &&& final(self).delivered() == delivered_after(
                        old(self).delivered(),
                        old(self).stage(),
                        handoff,
                    )
                },
            old(self).stage() == Stage::Exhausted ==> pulled is Ok && pulled->Ok_0 is None,
            old(self).stage() == Stage::Panicked ==> pulled is Err,
    {
        if self.outcome.is_some() {
            return self.settle(Handoff::Closed { panicked: false });
        }
        let handoff = match &self.inner {
            Some(inner) => match inner.rx.recv() {
                Ok(item) => Handoff::Item(item),
                Err(_) => Handoff::Closed { panicked: is_raised(&self.worker_panicked) },
            },
            None => Handoff::Closed { panicked: false },
        };
        self.settle(handoff)
    }

    /// The bounds that upstream gave for its length when it was wrapped.
    pub fn size_hint(&self) -> (hint: (usize, Option<usize>))
        ensures
            hint == self.hint(),
    {
        self.iter_size_hint
    }
}

} // verus!
