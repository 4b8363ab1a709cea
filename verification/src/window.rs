//! The in-flight window: the mathematical model of an ordered parallel map.
//!
//! Every item that the engine pulls from upstream is submitted under the next
//! sequence index, counted from zero. Workers hand results back under the
//! index of the item they were computed from, in any order. The consumer gets
//! the results by ascending index with no gaps, so the `k`-th result it sees
//! is the one that came back under index `k`.
//!
//! [`Window`] records that history. The executable engine keeps a value of it
//! as its view, and its contracts are stated over the functions defined here.
use vstd::prelude::*;

verus! {

/// Why a pipeline stopped for good.
#[derive(Clone, Copy, Debug, PartialEq, Eq, Structural)]
pub enum Failure {
    /// A wait for a result came to nothing and a worker's guard had raised
    /// the flag.
    WorkerPanicked,
    /// The result channel was closed while results were still owed, and no
    /// guard had raised the flag.
    Disconnected,
    /// An item could not be handed to the workers: none of them is left.
    SendFailed,
    /// A result came back under an index that is not awaited.
    UnexpectedIndex,
    /// The sequence index has reached the largest `usize`.
    IndexOverflow,
}

impl Failure {
    /// What [`message`](Self::message) says of this failure.
    pub open spec fn text(self) -> Seq<char> {
        match self {
            Failure::WorkerPanicked => "worker thread panicked: panic indicator set"@,
            Failure::Disconnected => "worker thread panicked: channel disconnected"@,
            Failure::SendFailed => "send failed"@,
            Failure::UnexpectedIndex => "result under an index that is not awaited"@,
            Failure::IndexOverflow => "sequence index overflow"@,
        }
    }

    /// A few words on the failure, for the one who has to report it.
    pub fn message(&self) -> (words: &'static str)
        ensures
            words@ == self.text(),
    {
        match self {
            Failure::WorkerPanicked => "worker thread panicked: panic indicator set",
            Failure::Disconnected => "worker thread panicked: channel disconnected",
            Failure::SendFailed => "send failed",
            Failure::UnexpectedIndex => "result under an index that is not awaited",
            Failure::IndexOverflow => "sequence index overflow",
        }
    }
}

/// Where an engine stands.
///
/// An engine begins as `NotStarted`, is `Running` from its first pull on, and
/// ends as `Exhausted` or as `Panicked`.
#[derive(Clone, Copy, Debug, PartialEq, Eq, Structural)]
pub enum Stage {
    /// Upstream has not been touched.
    NotStarted,
    /// Items have been pulled; results may arrive.
    Running,
    /// Upstream has come to its end and everything was handed on.
    Exhausted,
    /// The pipeline has failed.
    Panicked,
}

/// What one attempt to get the next result ended with.
#[derive(Debug, PartialEq, Eq)]
pub enum Poll<O> {
    /// The next result in order.
    Item(O),
    /// Upstream is exhausted and every result has been handed over.
    End,
    /// Nothing can be handed over at this attempt; ask again.
    Pending,
    /// The pipeline has failed; every later attempt that finds no result
    /// ready fails the same way.
    Failed(Failure),
}

/// What a wait on the result channel ended with.
#[derive(Debug, PartialEq, Eq)]
pub enum Arrival<O> {
    /// A worker handed back `value` under `index`.
    Result { index: usize, value: O },
    /// Nothing arrived in time; `panicked` tells whether the workers' flag
    /// was found raised afterwards.
    Timeout { panicked: bool },
    /// The channel is empty and no worker holds it any more; `panicked`
    /// tells whether the workers' flag was found raised afterwards.
    Disconnected { panicked: bool },
}

/// The history of one engine.
pub struct Window<T, O> {
    /// The upstream items submitted so far; an item's position is its index.
    pub submitted: Seq<T>,
    /// The results accepted so far, by index.
    pub received: Map<int, O>,
    /// The index of the result that the consumer is waiting for.
    pub next_rx: nat,
    /// The most items that may be in flight at once.
    pub limit: nat,
    /// Whether upstream has come to its end.
    pub upstream_done: bool,
    /// The failure that ended the pipeline, if any.
    pub failure: Option<Failure>,
}

impl<T, O> Window<T, O> {
    /// The window of an engine that has not pulled anything yet.
    pub open spec fn fresh(limit: nat) -> Self {
        Window {
            submitted: Seq::empty(),
            received: Map::empty(),
            next_rx: 0,
            limit,
            upstream_done: false,
            failure: None,
        }
    }

    /// The index that the next submitted item gets.
    pub open spec fn next_tx(self) -> nat {
        self.submitted.len()
    }

    /// How many items are submitted and not yet handed to the consumer.
    pub open spec fn in_flight(self) -> int {
        self.next_tx() - self.next_rx
    }

    /// The bookkeeping is consistent: the consumer is never ahead of the
    /// submissions and never more than `limit` behind them, every result up to
    /// the consumer's position has been accepted, and no result is recorded
    /// for an index that was never submitted.
    pub open spec fn wf(self) -> bool {
        &&& self.limit >= 1
        &&& self.next_rx <= self.next_tx()
        &&& self.in_flight() <= self.limit
        &&& forall|k: int| #[trigger] self.received.dom().contains(k) ==> 0 <= k < self.next_tx()
        &&& forall|k: int| 0 <= k < self.next_rx ==> #[trigger] self.received.dom().contains(k)
    }

    /// The results handed to the consumer so far, in the order it got them.
    pub open spec fn delivered(self) -> Seq<O> {
        Seq::new(self.next_rx, |k: int| self.received[k])
    }

    /// The results that wait for an earlier one: accepted, not yet handed on.
    pub open spec fn parked(self) -> Map<int, O> {
        self.received.restrict(Set::new(|k: int| k >= self.next_rx))
    }

    /// Where the engine stands: not started as long as upstream has not been
    /// touched, exhausted or failed at the end, and running in between.
    pub open spec fn stage(self) -> Stage {
        if self.failure is Some {
            Stage::Panicked
        } else if self.exhausted() {
            Stage::Exhausted
        } else if self.submitted.len() == 0 && !self.upstream_done {
            Stage::NotStarted
        } else {
            Stage::Running
        }
    }

    /// Nothing is left to do: upstream is done and every result is delivered.
    pub open spec fn exhausted(self) -> bool {
        &&& self.failure is None
        &&& self.upstream_done
        &&& self.next_rx == self.next_tx()
    }

    /// One more item may be pulled from upstream and submitted.
    pub open spec fn may_submit(self) -> bool {
        &&& self.failure is None
        &&& !self.upstream_done
        &&& self.in_flight() < self.limit
    }

    /// The result that the consumer waits for has been accepted.
    pub open spec fn ready(self) -> bool {
        self.received.dom().contains(self.next_rx as int)
    }

    /// A result under `index` is awaited: the index was submitted, is not
    /// delivered yet and has no result so far.
    pub open spec fn awaits(self, index: int) -> bool {
        &&& self.next_rx <= index < self.next_tx()
        &&& !self.received.dom().contains(index)
    }

    /// The items submitted are the first items of `source`, in its order:
    /// with `rest` being what upstream still has to give, the items submitted
    /// followed by the rest are the source, and once upstream has come
    /// to its end nothing is left to give.
    pub open spec fn draws_from(self, source: Seq<T>, rest: Seq<T>) -> bool {
        &&& self.submitted + rest == source
        &&& self.upstream_done ==> rest.len() == 0
    }

    /// Upstream is drawn on in order and without loss on the way from this
    /// window to `later`: with `rest` and `later_rest` being what upstream
    /// has still to give at the two moments, the items submitted followed by
    /// those still to come are the same sequence, and if upstream came to its
    /// end in between, nothing was left to give.
    pub open spec fn keeps_source(self, rest: Seq<T>, later: Self, later_rest: Seq<T>) -> bool {
        &&& later.submitted + later_rest == self.submitted + rest
        &&& !self.upstream_done && later.upstream_done ==> later_rest.len() == 0
    }

    /// One item of upstream was lost on the way from this window to `later`:
    /// with `rest` and `later_rest` being what upstream has still to give at
    /// the two moments, the items submitted at the later moment are the
    /// first items of what was submitted and still to come at the earlier
    /// one, the item after them is missing, and the rest is still to come.
    pub open spec fn loses_one(self, rest: Seq<T>, later: Self, later_rest: Seq<T>) -> bool {
        let source = self.submitted + rest;
        &&& later.submitted.len() < source.len()
        &&& later.submitted == source.take(later.submitted.len() as int)
        &&& later_rest == source.skip(later.submitted.len() as int + 1)
    }

    /// How upstream is drawn on from this window to `later`: in order and
    /// without loss, but for the one item that a failing send takes with it.
    pub open spec fn draws_on(self, rest: Seq<T>, later: Self, later_rest: Seq<T>) -> bool {
        if self.failure is None && later.failure == Some(Failure::SendFailed) {
            self.loses_one(rest, later, later_rest)
        } else {
            self.keeps_source(rest, later, later_rest)
        }
    }

    /// What filling the window makes of the history: nothing, for an engine
    /// that has failed or whose upstream has ended; otherwise items are
    /// submitted until the window is full, upstream ends, or the engine
    /// fails. It fails with `IndexOverflow` just when the next index is the
    /// largest `usize` while there is room for an item, and else only with
    /// `SendFailed`.
    pub open spec fn pumps_to(self, later: Self) -> bool {
        &&& self.extends_to(later)
        &&& later.received == self.received
        &&& later.next_rx == self.next_rx
        &&& !later.may_submit()
        &&& self.failure is Some || self.upstream_done ==> later == self
        &&& self.failure is None && later.failure is Some ==> later.failure == Some(
            Failure::SendFailed,
        ) || later.failure == Some(Failure::IndexOverflow)
        &&& self.failure is None && later.failure == Some(Failure::IndexOverflow)
            ==> later.next_tx() == usize::MAX && !later.upstream_done
        &&& self.may_submit() && self.next_tx() == usize::MAX ==> later == self.fail(
            Failure::IndexOverflow,
        )
    }

    /// What one attempt to get the next result makes of the history, and
    /// what it tells the consumer, where `mid` is the window once it was
    /// filled and `arrival` is what the wait ended with.
    ///
    /// A result that is ready is handed over at once, and the window is
    /// filled again. Else a window that has failed answers with its failure
    /// and stays as it is. Else the window is filled; if that fails or shows
    /// the end, this is the answer. Else the arrival is settled, and the
    /// window is filled again if a result was handed over.
    pub open spec fn polls_to(
        self,
        mid: Self,
        arrival: Arrival<O>,
        later: Self,
        step: Poll<O>,
    ) -> bool {
        if self.ready() {
            &&& step == Poll::Item(self.received[self.next_rx as int])
            &&& self.release().pumps_to(later)
        } else if self.failure is Some {
            &&& step == Poll::<O>::Failed(self.failure->0)
            &&& later == self
        } else {
            &&& self.pumps_to(mid)
            &&& if mid.failure is Some {
                &&& step == Poll::<O>::Failed(mid.failure->0)
                &&& later == mid
            } else if mid.exhausted() {
                &&& step == Poll::<O>::End
                &&& later == mid
            } else {
                &&& step == mid.answer(arrival)
                &&& if step is Item {
                    mid.settle(arrival).pumps_to(later)
                } else {
                    later == mid.settle(arrival)
                }
            }
        }
    }

    /// The window after `item` was submitted under the next index.
    pub open spec fn submit(self, item: T) -> Self {
        Window { submitted: self.submitted.push(item), ..self }
    }

    /// The window after upstream came to its end.
    pub open spec fn close(self) -> Self {
        Window { upstream_done: true, ..self }
    }

    /// The window after the pipeline failed with `failure`. A failure is
    /// final: a window that has failed before keeps its first failure.
    pub open spec fn fail(self, failure: Failure) -> Self {
        if self.failure is Some {
            self
        } else {
            Window { failure: Some(failure), ..self }
        }
    }

    /// The window after the consumer took the result it waited for.
    pub open spec fn release(self) -> Self {
        Window { next_rx: self.next_rx + 1, ..self }
    }

    /// The window after a result came back under `index`: recorded if it was
    /// awaited, a failure if not.
    pub open spec fn accept(self, index: int, value: O) -> Self {
        if self.awaits(index) {
            Window { received: self.received.insert(index, value), ..self }
        } else {
            self.fail(Failure::UnexpectedIndex)
        }
    }

    /// The window after a wait on the result channel ended with `arrival`:
    /// a result is recorded and, if the awaited one is there now, that one is
    /// handed on at once; a raised flag or a closed channel ends the pipeline.
    /// A window that has failed stays as it is.
    pub open spec fn settle(self, arrival: Arrival<O>) -> Self {
        if self.failure is Some {
            self
        } else {
            match arrival {
                Arrival::Result { index, value } => {
                    let recorded = self.accept(index as int, value);
                    if recorded.failure is None && recorded.ready() {
                        recorded.release()
                    } else {
                        recorded
                    }
                },
                Arrival::Timeout { panicked } => if panicked {
                    self.fail(Failure::WorkerPanicked)
                } else {
                    self
                },
                Arrival::Disconnected { panicked } => if panicked {
                    self.fail(Failure::WorkerPanicked)
                } else {
                    self.fail(Failure::Disconnected)
                },
            }
        }
    }

    /// What the consumer is told after `arrival`.
    pub open spec fn answer(self, arrival: Arrival<O>) -> Poll<O> {
        if self.failure is Some {
            Poll::Failed(self.failure->0)
        } else {
            match arrival {
                Arrival::Result { index, value } => {
                    let recorded = self.accept(index as int, value);
                    if recorded.failure is Some {
                        Poll::Failed(Failure::UnexpectedIndex)
                    } else if recorded.ready() {
                        Poll::Item(recorded.received[self.next_rx as int])
                    } else {
                        Poll::Pending
                    }
                },
                Arrival::Timeout { panicked } => if panicked {
                    Poll::Failed(Failure::WorkerPanicked)
                } else {
                    Poll::Pending
                },
                Arrival::Disconnected { panicked } => if panicked {
                    Poll::Failed(Failure::WorkerPanicked)
                } else {
                    Poll::Failed(Failure::Disconnected)
                },
            }
        }
    }

    /// The window after the consumer has taken every result that is ready,
    /// one after the other, until the one it waits for is missing.
    pub open spec fn drain(self) -> Self
        decreases self.next_tx() - self.next_rx,
    {
        if self.ready() && self.next_rx < self.next_tx() {
            self.release().drain()
        } else {
            self
        }
    }

    /// The window after the results in `arrivals` came back in that order,
    /// each under its index, with the consumer taking whatever is ready.
    pub open spec fn replay(self, arrivals: Seq<(int, O)>) -> Self
        decreases arrivals.len(),
    {
        if arrivals.len() == 0 {
            self.drain()
        } else {
            let (index, value) = arrivals.last();
            self.replay(arrivals.drop_last()).accept(index, value).drain()
        }
    }

    /// `later` continues this history: what was submitted, accepted and
    /// delivered stays as it was, and neither the end of upstream nor a
    /// failure is taken back.
    pub open spec fn extends_to(self, later: Self) -> bool {
        &&& self.limit == later.limit
        &&& self.submitted.is_prefix_of(later.submitted)
        &&& self.received.submap_of(later.received)
        &&& self.next_rx <= later.next_rx
        &&& self.upstream_done ==> later.upstream_done
        &&& self.failure is Some ==> later.failure == self.failure
    }

    /// Every accepted result is the image under `f` of the item that was
    /// submitted under the same index.
    pub open spec fn faithful(self, f: spec_fn(T) -> O) -> bool {
        forall|k: int| #[trigger]
            self.received.dom().contains(k) ==> self.received[k] == f(self.submitted[k])
    }
}

} // verus!
