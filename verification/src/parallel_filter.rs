//! The ordered parallel filter: an ordered parallel map whose workers answer
//! each item with the item itself or with nothing, and whose consumer side
//! passes on the items and skips the nothings.
use crate::guard::{share_flag, DropIndicator};
use crate::order::{lemma_draws_on_in_a_row, lemma_extends_in_a_row};
use crate::parallel_map::{resolved_threads, resolved_window, ParallelMap, ParallelMapBuilder};
use crate::window::{Arrival, Failure, Poll, Stage, Window};
use crossbeam_channel::{Receiver, RecvError, Sender};
use vstd::prelude::*;
use vstd::std_specs::iter::IteratorSpec;

verus! {

/// What a worker answers for an item under the predicate `keep`.
pub open spec fn kept_if<T>(keep: spec_fn(T) -> bool) -> spec_fn(T) -> Option<T> {
    |item: T|
        if keep(item) {
            Some(item)
        } else {
            None
        }
}

/// The items among a sequence of answers, in their order.
pub open spec fn kept<T>(answers: Seq<Option<T>>) -> Seq<T> {
    answers.filter_map(|answer: Option<T>| answer)
}

/// What the consumer of a filter is told where the engine underneath tells
/// `inner`: an item is handed on, a nothing is skipped and the consumer asked
/// to try again, and everything else is told as it is.
pub open spec fn passed_on<T>(inner: Poll<Option<T>>) -> Poll<T> {
    match inner {
        Poll::Item(Some(item)) => Poll::Item(item),
        Poll::Item(None) => Poll::Pending,
        Poll::End => Poll::End,
        Poll::Pending => Poll::Pending,
        Poll::Failed(failure) => Poll::Failed(failure),
    }
}

/// Asks `f` about an item that travels under a sequence index. The answer
/// travels under the same index: the item itself where `f` says yes, nothing
/// where it says no.
pub fn keep_tagged<T, F>(f: &mut F, tagged: (usize, T)) -> (result: (usize, Option<T>)) where
    F: FnMut(&T) -> bool,

    requires
        call_requires(*old(f), (&tagged.1,)),
    ensures
        result.0 == tagged.0,
        call_ensures(*old(f), (&tagged.1,), result.1 is Some),
        result.1 matches Some(item) ==> item == tagged.1,
{
    let (index, item) = tagged;
    if f(&item) {
        (index, Some(item))
    } else {
        (index, None)
    }
}

/// One worker of an ordered parallel filter: its copy of the predicate, its
/// ends of the two channels, and its guard on the engine's flag.
///
/// It is run like a worker of the ordered parallel map: stepped on a thread
/// of its own until no more work is to come, then finished.
#[verifier::reject_recursive_types(T)]
pub struct FilterWorker<T, F> {
    // first, so that a worker that dies raises the flag before it lets go of
    // the channels
    drop_indicator: DropIndicator,
    f: F,
    in_rx: Receiver<(usize, T)>,
    out_tx: Sender<(usize, Option<T>)>,
    // every item served: its index, the item, and whether it was let pass
    served: Ghost<Seq<(usize, T, bool)>>,
}

impl<T, F> FilterWorker<T, F> {
    /// The worker's copy of the predicate.
    pub closed spec fn function(&self) -> F {
        self.f
    }

    /// The items served so far: for each its index, the item itself, and
    /// whether the answer sent back under that index was the item.
    pub closed spec fn served(&self) -> Seq<(usize, T, bool)> {
        self.served@
    }

    /// The worker's guard.
    pub closed spec fn guard(&self) -> DropIndicator {
        self.drop_indicator
    }

    /// A worker that asks `f` about what arrives on `in_rx` and answers on
    /// `out_tx`, watched over by `drop_indicator`.
    pub fn new(
        f: F,
        in_rx: Receiver<(usize, T)>,
        out_tx: Sender<(usize, Option<T>)>,
        drop_indicator: DropIndicator,
    ) -> (worker: Self)
        ensures
            worker.function() == f,
            worker.guard() == drop_indicator,
            worker.served() == Seq::<(usize, T, bool)>::empty(),
    {
        FilterWorker { drop_indicator, f, in_rx, out_tx, served: Ghost(Seq::empty()) }
    }

    /// Takes in what a wait for work ended with. An item is served: the
    /// predicate is asked about it, and the answer is sent back under the
    /// item's index. Answers whether more work may come: it may after an
    /// item, and it will not once the channel was found closed.
    ///
    /// An answer that cannot be sent, because the filter is gone, is thrown
    /// away.
    pub fn serve(&mut self, got: Result<(usize, T), RecvError>) -> (more: bool) where
        F: FnMut(&T) -> bool,

        requires
            forall|f: F, item: &T| call_requires(f, (item,)),
        ensures
            final(self).guard() == old(self).guard(),
            more == got is Ok,
            got is Err ==> final(self).served() == old(self).served(),
            got matches Ok(tagged) ==> {
                &&& final(self).served().len() == old(self).served().len() + 1
                &&& final(self).served().drop_last() == old(self).served()
                &&& final(self).served().last().0 == tagged.0
                &&& final(self).served().last().1 == tagged.1
                &&& call_ensures(
                    old(self).function(),
                    (&tagged.1,),
                    final(self).served().last().2,
                )
            },
    {
        match got {
            Ok(tagged) => {
                assert(call_requires(self.function(), (&tagged.1,)));
                let ghost item = tagged.1;
                let result = keep_tagged(&mut self.f, tagged);
                proof {
                    self.served@ = self.served@.push((result.0, item, result.1 is Some));
                    assert(self.served@.drop_last() =~= old(self).served@);
                }
                let _ = self.out_tx.send(result);
                true
            },
            Err(_) => false,
        }
    }

    /// Waits for one item and [serves](Self::serve) it. Answers whether more
    /// work may come: `false` once the filter has given up its end of the
    /// channel and nothing is queued.
    ///
    /// The predicate has to be one that can be asked about every item, in
    /// whatever state earlier calls have left it.
    pub fn step(&mut self) -> (more: bool) where F: FnMut(&T) -> bool
        requires
            forall|f: F, item: &T| call_requires(f, (item,)),
        ensures
            final(self).guard() == old(self).guard(),
            !more ==> final(self).served() == old(self).served(),
            more ==> final(self).served().len() == old(self).served().len() + 1
                && final(self).served().drop_last() == old(self).served() && call_ensures(
                old(self).function(),
                (&final(self).served().last().1,),
                final(self).served().last().2,
            ),
    {
        let got = self.in_rx.recv();
        self.serve(got)
    }

    /// Ends the worker in the ordinary way: its guard is cancelled, so the
    /// flag stays as it is.
    pub fn finish(self) {
        self.drop_indicator.cancel();
    }

    /// Serves up to `budget` items, one [`step`](Self::step) after the
    /// other. A worker that finds no more work to come is finished, and
    /// nothing is handed back; a worker that has used up its budget is
    /// handed back as it is, to be run again.
    pub fn run(self, budget: usize) -> (rest: Option<Self>) where F: FnMut(&T) -> bool
        requires
            forall|f: F, item: &T| call_requires(f, (item,)),
        ensures
            budget == 0 ==> rest == Some(self),
            rest matches Some(worker) ==> {
                &&& worker.guard() == self.guard()
                &&& worker.served().len() == self.served().len() + budget
                &&& self.served().is_prefix_of(worker.served())
            },
    {
        let mut worker = self;
        let mut left = budget;
        while left > 0
            invariant
                left <= budget,
                left == budget ==> worker == self,
                worker.guard() == self.guard(),
                worker.served().len() == self.served().len() + (budget - left),
                self.served().is_prefix_of(worker.served()),
                forall|f: F, item: &T| call_requires(f, (item,)),
            decreases left,
        {
            let ghost before = worker.served();
            if !worker.step() {
                worker.finish();
                return None;
            }
            proof {
                assert(before == worker.served().drop_last());
            }
            left -= 1;
        }
        Some(worker)
    }
}

/// Collects the settings of an ordered parallel filter before it is started.
pub struct ParallelFilterBuilder<I>(ParallelMapBuilder<I>) where I: Iterator;

impl<I> ParallelFilterBuilder<I> where I: Iterator {
    /// The upstream iterator.
    pub closed spec fn upstream(&self) -> I {
        self.0.upstream()
    }

    /// The number of workers asked for, if any.
    pub closed spec fn requested_threads(&self) -> Option<usize> {
        self.0.requested_threads()
    }

    /// The in-flight limit asked for, if any.
    pub closed spec fn requested_window(&self) -> Option<usize> {
        self.0.requested_window()
    }

    /// A builder over `iter` with nothing asked for.
    pub fn new(iter: I) -> (builder: Self)
        ensures
            builder.upstream() == iter,
            builder.requested_threads() is None,
            builder.requested_window() is None,
    {
        Self(ParallelMapBuilder::new(iter))
    }

    /// Asks for `num` workers; zero asks for one worker per hardware thread
    /// detected.
    pub fn threads(self, num: usize) -> (builder: Self)
        ensures
            builder.upstream() == self.upstream(),
            builder.requested_threads() == Some(num),
            builder.requested_window() == self.requested_window(),
    {
        Self(self.0.threads(num))
    }

    /// Asks for at most `num` items in flight; zero is served as one.
    pub fn buffer_size(self, num: usize) -> (builder: Self)
        ensures
            builder.upstream() == self.upstream(),
            builder.requested_threads() == self.requested_threads(),
            builder.requested_window() == Some(num),
    {
        Self(self.0.buffer_size(num))
    }

    /// Creates the filter for `f`. It is not started: nothing has been pulled
    /// from upstream, and there are no channels and no workers yet.
    ///
    /// The predicate comes back with the filter, for the
    /// [`workers`](ParallelFilter::workers) that are made when the filter is
    /// started.
    pub fn with<F>(self, f: F) -> (parts: (ParallelFilter<I>, F)) where
        F: Clone + FnMut(&I::Item) -> bool,

        ensures
            parts.0.wf(),
            !parts.0.opened(),
            !parts.0.crewed(),
            parts.0@ == Window::<I::Item, Option<I::Item>>::fresh(parts.0@.limit),
            parts.0@.limit == resolved_window(self.requested_window(), parts.0.threads()),
            parts.0.threads() >= 1,
            exists|detected: usize|
                parts.0.threads() == resolved_threads(self.requested_threads(), detected),
            self.requested_threads() matches Some(n) ==> (n != 0 ==> parts.0.threads() == n),
            parts.0.upstream() == self.upstream(),
            parts.1 == f,
    {
        (ParallelFilter { iter: self.0.with_common() }, f)
    }
}

/// Like [`std::iter::Filter`], but with the predicate asked by worker threads.
#[verifier::reject_recursive_types(I)]
pub struct ParallelFilter<I> where I: Iterator {
    // the engine that does the work
    iter: ParallelMap<I, Option<I::Item>>,
}

impl<I> View for ParallelFilter<I> where I: Iterator {
    type V = Window<I::Item, Option<I::Item>>;

    /// The window of the engine underneath.
    closed spec fn view(&self) -> Window<I::Item, Option<I::Item>> {
        self.iter@
    }
}

impl<I> ParallelFilter<I> where I: Iterator {
    /// The engine underneath is consistent.
    pub open spec fn wf(&self) -> bool {
        &&& self@.wf()
        &&& self.inv()
    }

    /// The engine underneath agrees with its window.
    pub closed spec fn inv(&self) -> bool {
        self.iter.inv()
    }

    /// The upstream iterator, as far as it has not been consumed.
    pub closed spec fn upstream(&self) -> I {
        self.iter.upstream()
    }

    /// The number of workers that this filter was set up for.
    pub closed spec fn threads(&self) -> usize {
        self.iter.threads()
    }

    /// The flag that the workers' guards raise.
    pub closed spec fn flag(&self) -> std::sync::Arc<std::sync::atomic::AtomicBool> {
        self.iter.flag()
    }

    /// The filter has its two channels. It gets them when it is started, or
    /// at the first pull.
    pub closed spec fn opened(&self) -> bool {
        self.iter.opened()
    }

    /// The workers' ends of the two channels have been handed out.
    pub closed spec fn crewed(&self) -> bool {
        self.iter.crewed()
    }

    /// The items handed to the consumer so far, in the order it got them.
    pub open spec fn passed(&self) -> Seq<I::Item> {
        kept(self@.delivered())
    }

    /// Where the filter stands.
    pub fn stage(&self) -> (stage: Stage)
        requires
            self.wf(),
        ensures
            stage == self@.stage(),
            stage == Stage::NotStarted ==> !self.opened(),
    {
        self.iter.stage()
    }

    /// Creates the two channels, if the filter has none yet, and hands out
    /// the workers' ends: where items are taken from and where answers are
    /// put. They are handed out once; a later call gets nothing.
    ///
    /// With the channels the engine is running: the in-flight window is
    /// filled.
    pub fn ensure_started(&mut self) -> (ends: Option<
        (Receiver<(usize, I::Item)>, Sender<(usize, Option<I::Item>)>),
    >)
        requires
            old(self).wf(),
        ensures
            final(self).wf(),
            final(self).opened(),
            final(self).crewed(),
            ends is Some <==> !old(self).crewed(),
            old(self)@.pumps_to(final(self)@),
            final(self)@.received == old(self)@.received,
            final(self)@.next_rx == old(self)@.next_rx,
            old(self)@.failure is None && final(self)@.failure == Some(Failure::IndexOverflow)
                ==> final(self)@.next_tx() == usize::MAX,
            old(self)@.may_submit() && old(self)@.next_tx() == usize::MAX ==> final(self)@.failure
                == Some(Failure::IndexOverflow) && final(self).upstream() == old(self).upstream(),
            final(self)@.stage() != Stage::NotStarted,
            old(self)@.failure is Some || old(self)@.upstream_done || old(self)@.next_tx()
                == usize::MAX ==> final(self).upstream() == old(self).upstream(),
            old(self).upstream().obeys_prophetic_iter_laws() ==> {
                &&& final(self).upstream().obeys_prophetic_iter_laws()
                &&& old(self)@.draws_on(
                    old(self).upstream().remaining(),
                    final(self)@,
                    final(self).upstream().remaining(),
                )
                &&& final(self)@.failure is None && !old(self)@.upstream_done
                    ==> (final(self)@.upstream_done <==> old(self).upstream().remaining().len()
                    < old(self)@.limit
                    - old(self)@.in_flight())
                &&& old(self)@.failure is None && old(self).upstream().remaining().len() == 0
                    && old(self)@.next_tx() < usize::MAX ==> final(self)@.failure is None
            },
            final(self).threads() == old(self).threads(),
            final(self).flag() == old(self).flag(),
    {
        self.iter.ensure_started()
    }

    /// Starts the filter, if that has not been done, and creates the
    /// workers, one for each thread. A call that finds the workers' ends
    /// handed out already gets no workers.
    ///
    /// Every worker has a clone of `f`, its own handles to the two channels
    /// and an armed guard on the engine's flag. The workers are handed back
    /// to be started, each on a thread of its own.
    pub fn workers<F>(&mut self, f: F) -> (workers: Vec<FilterWorker<I::Item, F>>) where
        F: Clone + FnMut(&I::Item) -> bool,

        requires
            old(self).wf(),
        ensures
            final(self).wf(),
            final(self).opened(),
            final(self).crewed(),
            old(self)@.pumps_to(final(self)@),
            final(self)@.received == old(self)@.received,
            final(self)@.next_rx == old(self)@.next_rx,
            old(self)@.failure is None && final(self)@.failure == Some(Failure::IndexOverflow)
                ==> final(self)@.next_tx() == usize::MAX,
            old(self)@.may_submit() && old(self)@.next_tx() == usize::MAX ==> final(self)@.failure
                == Some(Failure::IndexOverflow) && final(self).upstream() == old(self).upstream(),
            final(self)@.stage() != Stage::NotStarted,
            old(self)@.failure is Some || old(self)@.upstream_done || old(self)@.next_tx()
                == usize::MAX ==> final(self).upstream() == old(self).upstream(),
            old(self).upstream().obeys_prophetic_iter_laws() ==> {
                &&& final(self).upstream().obeys_prophetic_iter_laws()
                &&& old(self)@.draws_on(
                    old(self).upstream().remaining(),
                    final(self)@,
                    final(self).upstream().remaining(),
                )
                &&& final(self)@.failure is None && !old(self)@.upstream_done
                    ==> (final(self)@.upstream_done <==> old(self).upstream().remaining().len()
                    < old(self)@.limit
                    - old(self)@.in_flight())
                &&& old(self)@.failure is None && old(self).upstream().remaining().len() == 0
                    && old(self)@.next_tx() < usize::MAX ==> final(self)@.failure is None
            },
            final(self).threads() == old(self).threads(),
            final(self).flag() == old(self).flag(),
            workers@.len() == if old(self).crewed() {
                0
            } else {
                old(self).threads() as int
            },
            forall|i: int|
                0 <= i < workers@.len() ==> {
                    &&& (#[trigger] workers@[i]).guard().armed()
                    &&& workers@[i].guard().flag() == old(self).flag()
                    &&& cloned(f, workers@[i].function())
                    &&& workers@[i].served().len() == 0
                },
    {
        let mut workers: Vec<FilterWorker<I::Item, F>> = Vec::new();
        if let Some((in_rx, out_tx)) = self.iter.ensure_started() {
            let flag = self.iter.share_flag();
            let threads = self.iter.num_threads();
            let mut started: usize = 0;
            while started < threads
                invariant
                    started <= threads,
                    workers@.len() == started,
                    flag == self.flag(),
                    forall|i: int|
                        0 <= i < workers@.len() ==> {
                            &&& (#[trigger] workers@[i]).guard().armed()
                            &&& workers@[i].guard().flag() == self.flag()
                            &&& cloned(f, workers@[i].function())
                            &&& workers@[i].served().len() == 0
                        },
                decreases threads - started,
            {
                let in_rx = in_rx.clone();
                let out_tx = out_tx.clone();
                let f = f.clone();
                let drop_indicator = DropIndicator::new(share_flag(&flag));
                workers.push(FilterWorker::new(f, in_rx, out_tx, drop_indicator));
                started += 1;
            }
        }
        workers
    }

    /// Starts the filter eagerly, without waiting for the first pull: the
    /// channels are created and the in-flight window is filled.
    pub fn started(self) -> (filter: Self)
        requires
            self.wf(),
        ensures
            filter.wf(),
            filter.opened(),
            filter.crewed() == self.crewed(),
            filter.threads() == self.threads(),
            filter.flag() == self.flag(),
            self@.pumps_to(filter@),
            filter@.received == self@.received,
            filter@.next_rx == self@.next_rx,
            self@.failure is None && filter@.failure == Some(Failure::IndexOverflow)
                ==> filter@.next_tx() == usize::MAX,
            self@.may_submit() && self@.next_tx() == usize::MAX ==> filter@.failure == Some(
                Failure::IndexOverflow,
            ) && filter.upstream() == self.upstream(),
            filter@.stage() != Stage::NotStarted,
            filter.passed() == self.passed(),
            self@.failure is Some || self@.upstream_done || self@.next_tx() == usize::MAX
                ==> filter.upstream() == self.upstream(),
            self.upstream().obeys_prophetic_iter_laws() ==> {
                &&& filter.upstream().obeys_prophetic_iter_laws()
                &&& self@.draws_on(
                    self.upstream().remaining(),
                    filter@,
                    filter.upstream().remaining(),
                )
                &&& filter@.failure is None && !self@.upstream_done ==> (filter@.upstream_done
                    <==> self.upstream().remaining().len() < self@.limit - self@.in_flight())
                &&& self@.failure is None && self.upstream().remaining().len() == 0
                    && self@.next_tx() < usize::MAX ==> filter@.failure is None
            },
    {
        ParallelFilter { iter: self.iter.started() }
    }

    /// The bounds that upstream gives for the number of items it has left.
    /// Items that are in flight are not counted, and neither is it known
    /// how many the predicate will let pass.
    pub fn size_hint(&self) -> (hint: (usize, Option<usize>)) {
        self.iter.size_hint()
    }

    /// Makes one attempt to get the next item that the predicate lets pass.
    ///
    /// One attempt is made on the engine underneath. An item that comes out
    /// is handed over; a nothing is skipped, and the consumer is asked to try
    /// again, as it is while the awaited answer is missing.
    pub fn poll(&mut self) -> (step: Poll<I::Item>)
        requires
            old(self).wf(),
        ensures
            final(self).wf(),
            final(self).threads() == old(self).threads(),
            final(self).flag() == old(self).flag(),
            final(self).opened(),
            final(self).crewed() == old(self).crewed(),
            old(self)@.extends_to(final(self)@),
            !final(self)@.may_submit(),
            final(self)@.stage() != Stage::NotStarted,
            exists|mid: Window<I::Item, Option<I::Item>>,
                arrival: Arrival<Option<I::Item>>,
                inner: Poll<Option<I::Item>>,
            |
                #[trigger] old(self)@.polls_to(mid, arrival, final(self)@, inner) && step
                    == passed_on(inner),
            old(self)@.ready() ==> final(self)@.next_rx == old(self)@.next_rx + 1 && step
                == passed_on(Poll::Item(old(self)@.received[old(self)@.next_rx as int])),
            old(self)@.failure is Some && !old(self)@.ready() ==> step
                == Poll::<I::Item>::Failed(old(self)@.failure->0) && final(self)@ == old(self)@,
            old(self)@.exhausted() ==> step is End && final(self)@ == old(self)@,
            old(self)@.upstream_done || old(self)@.failure is Some ==> final(self).upstream()
                == old(self).upstream() && final(self)@.submitted == old(self)@.submitted,
            old(self)@.failure is None && final(self)@.failure == Some(Failure::IndexOverflow)
                ==> final(self)@.next_tx() == usize::MAX,
            old(self)@.may_submit() && !old(self)@.ready() && old(self)@.next_tx() == usize::MAX
                ==> step == Poll::<I::Item>::Failed(Failure::IndexOverflow)
                    && final(self).upstream() == old(self).upstream(),
            old(self).upstream().obeys_prophetic_iter_laws() ==> {
                &&& final(self).upstream().obeys_prophetic_iter_laws()
                &&& old(self)@.draws_on(
                    old(self).upstream().remaining(),
                    final(self)@,
                    final(self).upstream().remaining(),
                )
            },
            old(self).upstream().obeys_prophetic_iter_laws() && old(self)@.failure is None
                && old(self)@.in_flight() == 0 && old(self).upstream().remaining().len() == 0
                && old(self)@.next_tx() < usize::MAX ==> step is End,
            match step {
                Poll::Item(item) => {
                    &&& final(self)@.next_rx == old(self)@.next_rx + 1
                    &&& final(self)@.received[old(self)@.next_rx as int] == Some(item)
                    &&& final(self).passed() == old(self).passed().push(item)
                },
                Poll::End => final(self)@.exhausted() && final(self).passed() == old(self).passed(),
                Poll::Pending => {
                    &&& final(self).passed() == old(self).passed()
                    &&& final(self)@.next_rx == old(self)@.next_rx + 1
                        ==> final(self)@.received[old(self)@.next_rx as int] is None
                    &&& final(self)@.next_rx != old(self)@.next_rx + 1 ==> {
                        &&& final(self)@.next_rx == old(self)@.next_rx
                        &&& final(self)@.failure is None
                        &&& !final(self)@.ready()
                    }
                },
                Poll::Failed(failure) => {
                    &&& final(self)@.failure == Some(failure)
                    &&& final(self).passed() == old(self).passed()
                },
            },
    {
        let ghost before = self.iter@;
        let step = self.iter.poll();
        proof {
            lemma_passed_step(before, self.iter@);
            if step is Item {
                assert(self.iter@.received.dom().contains(before.next_rx as int));
            }
            let (mid, arrival) = choose|
                mid: Window<I::Item, Option<I::Item>>,
                arrival: Arrival<Option<I::Item>>,
            | #[trigger] before.polls_to(mid, arrival, self.iter@, step);
            assert(before.polls_to(mid, arrival, self@, step));
        }
        match step {
            Poll::Item(Some(item)) => Poll::Item(item),
            Poll::Item(None) => Poll::Pending,
            Poll::End => Poll::End,
            Poll::Pending => Poll::Pending,
            Poll::Failed(failure) => Poll::Failed(failure),
        }
    }

    /// Asks for the next item that the predicate lets pass, up to `attempts`
    /// times in a row.
    ///
    /// Every attempt is a [`poll`](Self::poll); the first one that ends with
    /// an item, with the end or with a failure is the answer. Items that the
    /// predicate rejects are skipped on the way. The answer is `Pending` if
    /// all attempts came to nothing, and so it is for no attempts at all.
    pub fn next(&mut self, attempts: usize) -> (step: Poll<I::Item>)
        requires
            old(self).wf(),
        ensures
            final(self).wf(),
            final(self).threads() == old(self).threads(),
            final(self).flag() == old(self).flag(),
            final(self).opened() == (attempts > 0 || old(self).opened()),
            final(self).crewed() == old(self).crewed(),
            old(self)@.extends_to(final(self)@),
            attempts == 0 ==> step is Pending && final(self)@ == old(self)@
                && final(self).upstream() == old(self).upstream(),
            attempts > 0 ==> !final(self)@.may_submit() && final(self)@.stage()
                != Stage::NotStarted,
            attempts > 0 && old(self)@.ready() ==> final(self)@.next_rx > old(self)@.next_rx,
            attempts > 0 && old(self)@.failure is Some && !old(self)@.ready() ==> step
                == Poll::<I::Item>::Failed(old(self)@.failure->0) && final(self)@ == old(self)@,
            attempts > 0 && old(self)@.exhausted() ==> step is End && final(self)@ == old(self)@,
            attempts > 0 && old(self).upstream().obeys_prophetic_iter_laws()
                && old(self)@.failure is None && old(self)@.in_flight() == 0
                && old(self).upstream().remaining().len() == 0 && old(self)@.next_tx() < usize::MAX
                ==> step is End,
            attempts > 0 && old(self)@.may_submit() && !old(self)@.ready()
                && old(self)@.next_tx() == usize::MAX ==> step == Poll::<I::Item>::Failed(
                Failure::IndexOverflow,
            ) && final(self).upstream() == old(self).upstream(),
            old(self)@.failure is None && final(self)@.failure == Some(Failure::IndexOverflow)
                ==> final(self)@.next_tx() == usize::MAX,
            old(self)@.upstream_done || old(self)@.failure is Some ==> final(self).upstream()
                == old(self).upstream() && final(self)@.submitted == old(self)@.submitted,
            old(self).upstream().obeys_prophetic_iter_laws() ==> {
                &&& final(self).upstream().obeys_prophetic_iter_laws()
                &&& old(self)@.draws_on(
                    old(self).upstream().remaining(),
                    final(self)@,
                    final(self).upstream().remaining(),
                )
            },
            attempts > 0 ==> exists|
                last: Window<I::Item, Option<I::Item>>,
                mid: Window<I::Item, Option<I::Item>>,
                arrival: Arrival<Option<I::Item>>,
                inner: Poll<Option<I::Item>>,
            |
                {
                    &&& old(self)@.extends_to(last)
                    &&& kept(last.delivered()) == kept(old(self)@.delivered())
                    &&& #[trigger] last.polls_to(mid, arrival, final(self)@, inner)
                    &&& step == passed_on(inner)
                },
            match step {
                Poll::Item(item) => {
                    &&& final(self)@.next_rx > old(self)@.next_rx
                    &&& final(self)@.received[final(self)@.next_rx - 1] == Some(item)
                    &&& final(self).passed() == old(self).passed().push(item)
                },
                Poll::End => final(self)@.exhausted() && final(self).passed() == old(self).passed(),
                Poll::Pending => final(self).passed() == old(self).passed(),
                Poll::Failed(failure) => {
                    &&& final(self)@.failure == Some(failure)
                    &&& final(self).passed() == old(self).passed()
                },
            },
    {
        let mut left = attempts;
        let ghost mut last = self@;
        let ghost mut mid = self@;
        let ghost mut arrival = Arrival::<Option<I::Item>>::Timeout { panicked: false };
        let ghost mut inner = Poll::<Option<I::Item>>::Pending;
        while left > 0
            invariant
                self.wf(),
                left <= attempts,
                self.threads() == old(self).threads(),
                self.flag() == old(self).flag(),
                self.opened() == (left < attempts || old(self).opened()),
                self.crewed() == old(self).crewed(),
                old(self)@.extends_to(self@),
                self.passed() == old(self).passed(),
                left == attempts ==> self@ == old(self)@ && self.upstream() == old(self).upstream(),
                left < attempts ==> {
                    &&& old(self)@.failure is None || old(self)@.ready()
                    &&& !old(self)@.exhausted()
                    &&& !self@.may_submit()
                    &&& self@.stage() != Stage::NotStarted
                    &&& old(self)@.ready() ==> self@.next_rx > old(self)@.next_rx
                    &&& !(old(self).upstream().obeys_prophetic_iter_laws()
                        && old(self)@.failure is None && old(self)@.in_flight() == 0
                        && old(self).upstream().remaining().len() == 0 && old(self)@.next_tx()
                        < usize::MAX)
                    &&& !(old(self)@.may_submit() && !old(self)@.ready() && old(self)@.next_tx()
                        == usize::MAX)
                    &&& old(self)@.extends_to(last)
                    &&& kept(last.delivered()) == kept(old(self)@.delivered())
                    &&& last.polls_to(mid, arrival, self@, inner)
                    &&& passed_on(inner) == Poll::<I::Item>::Pending
                },
                old(self)@.failure is None && self@.failure == Some(Failure::IndexOverflow)
                    ==> self@.next_tx() == usize::MAX,
                old(self)@.upstream_done || old(self)@.failure is Some ==> self.upstream()
                    == old(self).upstream() && self@.submitted == old(self)@.submitted,
                old(self).upstream().obeys_prophetic_iter_laws() ==> {
                    &&& self.upstream().obeys_prophetic_iter_laws()
                    &&& old(self)@.draws_on(
                        old(self).upstream().remaining(),
                        self@,
                        self.upstream().remaining(),
                    )
                },
            decreases left,
        {
            let ghost before = self@;
            let ghost before_rest = self.upstream().remaining();
            let step = self.poll();
            proof {
                lemma_extends_in_a_row(old(self)@, before, self@);
                if old(self).upstream().obeys_prophetic_iter_laws() {
                    lemma_draws_on_in_a_row(
                        old(self)@,
                        old(self).upstream().remaining(),
                        before,
                        before_rest,
                        self@,
                        self.upstream().remaining(),
                    );
                }
                let (m, a, i) = choose|
                    m: Window<I::Item, Option<I::Item>>,
                    a: Arrival<Option<I::Item>>,
                    i: Poll<Option<I::Item>>,
                | #[trigger] before.polls_to(m, a, self@, i) && step == passed_on(i);
                last = before;
                mid = m;
                arrival = a;
                inner = i;
            }
            match step {
                Poll::Pending => {},
                answer => {
                    return answer;
                },
            }
            left -= 1;
        }
        Poll::Pending
    }
}

/// The items among a sequence of answers with one more answer at its end:
/// one more item, if that answer is one, and the same items, if it is
/// nothing.
pub proof fn lemma_kept_push<T>(answers: Seq<Option<T>>, answer: Option<T>)
    ensures
        kept(answers.push(answer)) == match answer {
            Some(item) => kept(answers).push(item),
            None => kept(answers),
        },
{
    let longer = answers.push(answer);
    assert(longer.drop_last() =~= answers);
    match answer {
        Some(item) => {
            assert(kept(answers) + seq![item] =~= kept(answers).push(item));
        },
        None => {},
    }
}

/// What the consumer of a filter has been handed grows with each answer that
/// the engine underneath delivers: by the item, if the answer is one, and not
/// at all, if it is nothing.
pub proof fn lemma_passed_step<T>(before: Window<T, Option<T>>, after: Window<T, Option<T>>)
    requires
        before.wf(),
        after.wf(),
        before.extends_to(after),
    ensures
        after.next_rx == before.next_rx ==> kept(after.delivered()) == kept(before.delivered()),
        after.next_rx == before.next_rx + 1 ==> kept(after.delivered())
            == match after.received[before.next_rx as int] {
            Some(item) => kept(before.delivered()).push(item),
            None => kept(before.delivered()),
        },
{
    assert forall|k: int| 0 <= k < before.next_rx implies after.received[k]
        == before.received[k] by {
        assert(before.received.dom().contains(k));
        assert(after.received.dom().contains(k));
    }
    if after.next_rx == before.next_rx {
        assert(after.delivered() =~= before.delivered());
    } else if after.next_rx == before.next_rx + 1 {
        let last = after.received[before.next_rx as int];
        assert(after.delivered() =~= before.delivered().push(last));
        lemma_kept_push(before.delivered(), last);
    }
}

/// The first `n` answers delivered hold the first `n` items submitted, less
/// those that `keep` rejects.
proof fn lemma_passed_prefix<T>(w: Window<T, Option<T>>, keep: spec_fn(T) -> bool, n: nat)
    requires
        w.wf(),
        w.faithful(kept_if(keep)),
        n <= w.next_rx,
    ensures
        kept(w.delivered().take(n as int)) == w.submitted.take(n as int).filter(keep),
    decreases n,
{
    if n == 0 {
        reveal(Seq::filter);
        assert(w.delivered().take(0) =~= Seq::<Option<T>>::empty());
        assert(w.submitted.take(0) =~= Seq::<T>::empty());
    } else {
        let m = (n - 1) as int;
        lemma_passed_prefix(w, keep, m as nat);
        assert(w.received.dom().contains(m));
        assert(w.delivered().take(m + 1) =~= w.delivered().take(m).push(w.received[m]));
        lemma_kept_push(w.delivered().take(m), w.received[m]);
        assert(w.submitted.take(m + 1) =~= w.submitted.take(m).push(w.submitted[m]));
        w.submitted.take(m).lemma_filter_push(w.submitted[m], keep);
    }
}

/// The filter keeps the order of the items: if every accepted answer is what
/// `keep` says of the item submitted under its index, then what was handed to
/// the consumer is the first items submitted, less those that `keep` rejects.
pub proof fn lemma_passed_in_order<T>(w: Window<T, Option<T>>, keep: spec_fn(T) -> bool)
    requires
        w.wf(),
        w.faithful(kept_if(keep)),
    ensures
        kept(w.delivered()) == w.submitted.take(w.next_rx as int).filter(keep),
{
    lemma_passed_prefix(w, keep, w.next_rx);
    assert(w.delivered().take(w.next_rx as int) =~= w.delivered());
}

/// An ordered parallel filter is a filter: where the engine draws from
/// `source` and every accepted answer is what `keep` says of the item
/// submitted under its index, what was handed to the consumer is the first
/// items of the source, less those that `keep` rejects, and at the end all
/// of the source's items that `keep` lets pass.
pub proof fn lemma_filter_of_source<T>(
    w: Window<T, Option<T>>,
    source: Seq<T>,
    rest: Seq<T>,
    keep: spec_fn(T) -> bool,
)
    requires
        w.wf(),
        w.faithful(kept_if(keep)),
        w.draws_from(source, rest),
    ensures
        kept(w.delivered()) == source.take(w.next_rx as int).filter(keep),
        w.exhausted() ==> kept(w.delivered()) == source.filter(keep),
{
    lemma_passed_in_order(w, keep);
    assert(w.submitted.take(w.next_rx as int) =~= source.take(w.next_rx as int));
    if w.exhausted() {
        assert(source.take(w.next_rx as int) =~= source);
    }
}

} // verus!
