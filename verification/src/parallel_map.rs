//! The ordered parallel map: items go out to workers under a sequence index,
//! results come back in any order and are handed on in the order of the items.
use crate::channel::MAX_CAPACITY;
use crate::guard::{is_raised, new_flag, share_flag, DropIndicator};
use crate::order::{lemma_draws_on_in_a_row, lemma_extends_in_a_row};
use crate::window::{Arrival, Failure, Poll, Stage, Window};
use core::time::Duration;
use crossbeam_channel::{Receiver, RecvError, RecvTimeoutError, Sender};
use std::sync::atomic::AtomicBool;
use std::sync::Arc;
use vstd::prelude::*;
use vstd::std_specs::iter::IteratorSpec;

verus! {

/// `Iterator::size_hint`: the bounds that an iterator gives for the number of
/// items it has left. What an iterator answers is up to it.
#[verifier::external_body]
pub(crate) fn size_hint_of<I: Iterator>(iter: &I) -> (hint: (usize, Option<usize>)) {
    iter.size_hint()
}

/// `num_cpus::get`: the number of hardware threads that this process can
/// run on.
///
/// The count is read from the operating system, so nothing is stated about it.
#[verifier::external_body]
fn hardware_threads() -> (count: usize) {
    num_cpus::get()
}

/// The number of workers for a request: the requested number, unless none or
/// zero was asked for; then the number of hardware threads detected, and one
/// if none was detected.
pub open spec fn resolved_threads(requested: Option<usize>, detected: usize) -> usize {
    match requested {
        Some(n) if n != 0 => n,
        _ => if detected != 0 {
            detected
        } else {
            1
        },
    }
}

/// The in-flight limit for a request: the requested limit, or twice the
/// number of workers if none was asked for; at least one, and at most the
/// largest capacity of a channel.
pub open spec fn resolved_window(requested: Option<usize>, threads: usize) -> usize {
    let wanted: int = match requested {
        Some(n) => n as int,
        None => 2 * threads,
    };
    if wanted < 1 {
        1
    } else if wanted > MAX_CAPACITY {
        MAX_CAPACITY
    } else {
        wanted as usize
    }
}

/// Computes [`resolved_threads`].
pub fn resolve_threads(requested: Option<usize>, detected: usize) -> (threads: usize)
    ensures
        threads == resolved_threads(requested, detected),
        threads >= 1,
{
    let mut num: usize = match requested {
        Some(n) => n,
        None => 0,
    };
    if num == 0 {
        num = detected;
    }
    if num == 0 {
        num = 1;
    }
    num
}

/// Computes [`resolved_window`].
pub fn resolve_window(requested: Option<usize>, threads: usize) -> (limit: usize)
    ensures
        limit == resolved_window(requested, threads),
        1 <= limit <= MAX_CAPACITY,
{
    let wanted: usize = match requested {
        Some(n) => n,
        None => if threads <= usize::MAX / 2 {
            2 * threads
        } else {
            usize::MAX
        },
    };
    if wanted < 1 {
        1
    } else if wanted > MAX_CAPACITY {
        MAX_CAPACITY
    } else {
        wanted
    }
}

/// The buffer of early results holds just the accepted results that the
/// consumer has not been handed, each once: every entry is a recorded result
/// for an index in flight, no index occurs twice, and every recorded result
/// from `next_rx` on has its entry.
spec fn buffer_holds_parked<O>(
    buffer: Seq<(usize, O)>,
    received: Map<int, O>,
    next_rx: int,
    next_tx: int,
) -> bool {
    &&& forall|j: int|
        0 <= j < buffer.len() ==> {
            &&& next_rx <= (#[trigger] buffer[j]).0 < next_tx
            &&& received.dom().contains(buffer[j].0 as int)
            &&& received[buffer[j].0 as int] == buffer[j].1
        }
    &&& forall|i: int, j: int|
        0 <= i < j < buffer.len() ==> (#[trigger] buffer[i]).0 != (#[trigger] buffer[j]).0
    &&& forall|k: int|
        next_rx <= k && #[trigger] received.dom().contains(k) ==> exists|j: int|
            0 <= j < buffer.len() && (#[trigger] buffer[j]).0 == k
}

/// Parking a result under an index that has no entry keeps the buffer in step
/// with the record.
proof fn lemma_buffer_push<O>(
    buffer: Seq<(usize, O)>,
    received: Map<int, O>,
    next_rx: int,
    next_tx: int,
    index: usize,
    value: O,
)
    requires
        buffer_holds_parked(buffer, received, next_rx, next_tx),
        next_rx <= index < next_tx,
        forall|j: int| 0 <= j < buffer.len() ==> (#[trigger] buffer[j]).0 != index,
    ensures
        !received.dom().contains(index as int),
        buffer_holds_parked(
            buffer.push((index, value)),
            received.insert(index as int, value),
            next_rx,
            next_tx,
        ),
{
    let after = buffer.push((index, value));
    let record = received.insert(index as int, value);
    if received.dom().contains(index as int) {
        let j = choose|j: int| 0 <= j < buffer.len() && (#[trigger] buffer[j]).0 == index;
        assert(buffer[j].0 != index);
    }
    assert forall|j: int| 0 <= j < after.len() implies {
        &&& next_rx <= (#[trigger] after[j]).0 < next_tx
        &&& record.dom().contains(after[j].0 as int)
        &&& record[after[j].0 as int] == after[j].1
    } by {
        if j < buffer.len() {
            assert(after[j] == buffer[j]);
        }
    }
    assert forall|i: int, j: int| 0 <= i < j < after.len() implies (#[trigger] after[i]).0 != (
    #[trigger] after[j]).0 by {
        assert(after[i] == buffer[i]);
        if j < buffer.len() {
            assert(after[j] == buffer[j]);
        }
    }
    assert forall|k: int| next_rx <= k && #[trigger] record.dom().contains(k) implies exists|
        j: int,
    |
        0 <= j < after.len() && (#[trigger] after[j]).0 == k by {
        if k == index {
            assert(after[buffer.len() as int].0 == k);
        } else {
            let j = choose|j: int| 0 <= j < buffer.len() && (#[trigger] buffer[j]).0 == k;
            assert(after[j].0 == k);
        }
    }
}

/// Taking the entry of the awaited index out of the buffer, with the last
/// entry moved into its place, keeps the buffer in step with the record once
/// the consumer has moved on by one.
proof fn lemma_buffer_take<O>(
    buffer: Seq<(usize, O)>,
    received: Map<int, O>,
    next_rx: int,
    next_tx: int,
    at: int,
)
    requires
        buffer_holds_parked(buffer, received, next_rx, next_tx),
        0 <= at < buffer.len(),
        buffer[at].0 == next_rx,
    ensures
        next_rx < next_tx,
        received.dom().contains(next_rx),
        received[next_rx] == buffer[at].1,
        buffer_holds_parked(
            buffer.update(at, buffer.last()).drop_last(),
            received,
            next_rx + 1,
            next_tx,
        ),
{
    let after = buffer.update(at, buffer.last()).drop_last();
    let last = buffer.len() - 1;
    assert forall|j: int| 0 <= j < after.len() implies {
        &&& next_rx + 1 <= (#[trigger] after[j]).0 < next_tx
        &&& received.dom().contains(after[j].0 as int)
        &&& received[after[j].0 as int] == after[j].1
    } by {
        if j == at {
            assert(after[j] == buffer[last]);
            assert(buffer[at].0 != buffer[last].0);
        } else {
            assert(after[j] == buffer[j]);
            if j < at {
                assert(buffer[j].0 != buffer[at].0);
            } else {
                assert(buffer[at].0 != buffer[j].0);
            }
        }
    }
    assert forall|i: int, j: int| 0 <= i < j < after.len() implies (#[trigger] after[i]).0 != (
    #[trigger] after[j]).0 by {
        let from_i = if i == at { last } else { i };
        let from_j = if j == at { last } else { j };
        assert(after[i] == buffer[from_i]);
        assert(after[j] == buffer[from_j]);
        if from_i < from_j {
            assert(buffer[from_i].0 != buffer[from_j].0);
        } else {
            assert(buffer[from_j].0 != buffer[from_i].0);
        }
    }
    assert forall|k: int| next_rx + 1 <= k && #[trigger] received.dom().contains(k) implies exists|
        j: int,
    |
        0 <= j < after.len() && (#[trigger] after[j]).0 == k by {
        let j = choose|j: int| 0 <= j < buffer.len() && (#[trigger] buffer[j]).0 == k;
        if j == last {
            assert(after[at].0 == k);
        } else {
            assert(after[j].0 == k);
        }
    }
}

/// The channel ends that the engine holds. It holds none before it is
/// started.
#[verifier::reject_recursive_types(T)]
#[verifier::reject_recursive_types(O)]
struct ParallelMapInner<T, O> {
    /// To the workers; given up once upstream is exhausted.
    tx: Option<Sender<(usize, T)>>,
    /// From the workers.
    rx: Option<Receiver<(usize, O)>>,
    /// The workers' ends of the two channels, until they are handed out.
    spare: Option<(Receiver<(usize, T)>, Sender<(usize, O)>)>,
}

/// Collects the settings of an ordered parallel map before it is started.
pub struct ParallelMapBuilder<I> where I: Iterator {
    // the iterator we wrapped
    iter: I,
    // number of worker threads to use
    num_threads: Option<usize>,
    // max number of items in flight
    buffer_size: Option<usize>,
}

impl<I> ParallelMapBuilder<I> where I: Iterator {
    /// The upstream iterator.
    pub closed spec fn upstream(&self) -> I {
        self.iter
    }

    /// The number of workers asked for, if any.
    pub closed spec fn requested_threads(&self) -> Option<usize> {
        self.num_threads
    }

    /// The in-flight limit asked for, if any.
    pub closed spec fn requested_window(&self) -> Option<usize> {
        self.buffer_size
    }

    /// A builder over `iter` with nothing asked for.
    pub fn new(iter: I) -> (builder: Self)
        ensures
            builder.upstream() == iter,
            builder.requested_threads() is None,
            builder.requested_window() is None,
    {
        Self { iter, num_threads: None, buffer_size: None }
    }

    /// Asks for `num` workers; zero asks for one worker per hardware thread
    /// detected.
    pub fn threads(self, num: usize) -> (builder: Self)
        ensures
            builder.upstream() == self.upstream(),
            builder.requested_threads() == Some(num),
            builder.requested_window() == self.requested_window(),
    {
        Self { iter: self.iter, num_threads: Some(num), buffer_size: self.buffer_size }
    }

    /// Asks for at most `num` items in flight; zero is served as one.
    pub fn buffer_size(self, num: usize) -> (builder: Self)
        ensures
            builder.upstream() == self.upstream(),
            builder.requested_threads() == self.requested_threads(),
            builder.requested_window() == Some(num),
    {
        Self { iter: self.iter, num_threads: self.num_threads, buffer_size: Some(num) }
    }

    /// The number of workers to start for `requested`.
    ///
    /// Where none is asked for the answer comes from the machine: it is then
    /// [`resolved_threads`] of whatever number of hardware threads was detected.
    pub fn num_threads(requested: Option<usize>) -> (threads: usize)
        ensures
            threads >= 1,
            exists|detected: usize| threads == resolved_threads(requested, detected),
            requested matches Some(n) ==> (n != 0 ==> threads == n),
    {
        match requested {
            Some(n) if n != 0 => {
                assert(n == resolved_threads(requested, 0));
                n
            },
            _ => {
                let detected = hardware_threads();
                resolve_threads(requested, detected)
            },
        }
    }

    /// Creates the engine. It is not started: nothing has been pulled from
    /// upstream, and there are no channels yet.
    pub fn with_common<O>(self) -> (engine: ParallelMap<I, O>)
        ensures
            engine.wf(),
            !engine.opened(),
            !engine.crewed(),
            engine@ == Window::<I::Item, O>::fresh(engine@.limit),
            engine@.limit == resolved_window(self.requested_window(), engine.threads()),
            engine.threads() >= 1,
            exists|detected: usize|
                engine.threads() == resolved_threads(self.requested_threads(), detected),
            self.requested_threads() matches Some(n) ==> (n != 0 ==> engine.threads() == n),
            engine.upstream() == self.upstream(),
    {
        let num_threads = Self::num_threads(self.num_threads);
        let buffer_size = resolve_window(self.buffer_size, num_threads);
        ParallelMap {
            iter: self.iter,
            iter_done: false,
            worker_panicked: new_flag(),
            num_threads,
            buffer_size,
            out_of_order: Vec::new(),
            next_tx_i: 0,
            next_rx_i: 0,
            inner: ParallelMapInner { tx: None, rx: None, spare: None },
            failure: None,
            submitted: Ghost(Seq::empty()),
            received: Ghost(Map::empty()),
        }
    }

    /// Creates the engine for `f`. It is not started: nothing has been pulled
    /// from upstream, and there are no channels and no workers yet.
    ///
    /// The function comes back with the engine, for the
    /// [`workers`](ParallelMap::workers) that are made when the engine is
    /// started.
    pub fn with<F, O>(self, f: F) -> (parts: (ParallelMap<I, O>, F)) where
        F: Clone + FnMut(I::Item) -> O,

        ensures
            parts.0.wf(),
            !parts.0.opened(),
            !parts.0.crewed(),
            parts.0@ == Window::<I::Item, O>::fresh(parts.0@.limit),
            parts.0@.limit == resolved_window(self.requested_window(), parts.0.threads()),
            parts.0.threads() >= 1,
            exists|detected: usize|
                parts.0.threads() == resolved_threads(self.requested_threads(), detected),
            self.requested_threads() matches Some(n) ==> (n != 0 ==> parts.0.threads() == n),
            parts.0.upstream() == self.upstream(),
            parts.1 == f,
    {
        (self.with_common(), f)
    }
}

/// Applies `f` to an item that travels under a sequence index; the result
/// travels under the same index.
pub fn apply_tagged<T, O, F>(f: &mut F, tagged: (usize, T)) -> (result: (usize, O)) where
    F: FnMut(T) -> O,

    requires
        call_requires(*old(f), (tagged.1,)),
    ensures
        result.0 == tagged.0,
        call_ensures(*old(f), (tagged.1,), result.1),
{
    let (index, item) = tagged;
    (index, f(item))
}

/// One worker of an ordered parallel map: its copy of the function, its ends
/// of the two channels, and its guard on the engine's flag.
///
/// A worker is made to be moved to a thread of its own. There it is asked to
/// [`step`](Self::step) until no more work is to come, and then to
/// [`finish`](Self::finish). A worker that is dropped without finishing, as
/// happens when its function panics, raises the flag.
#[verifier::reject_recursive_types(T)]
#[verifier::reject_recursive_types(O)]
pub struct Worker<T, O, F> {
    // first, so that a worker that dies raises the flag before it lets go of
    // the channels
    drop_indicator: DropIndicator,
    f: F,
    in_rx: Receiver<(usize, T)>,
    out_tx: Sender<(usize, O)>,
    // every item served: its index, the item, and the result sent back
    served: Ghost<Seq<(usize, T, O)>>,
}

impl<T, O, F> Worker<T, O, F> {
    /// The worker's copy of the function.
    pub closed spec fn function(&self) -> F {
        self.f
    }

    /// The items served so far: for each its index, the item itself, and the
    /// result that was sent back under that index.
    pub closed spec fn served(&self) -> Seq<(usize, T, O)> {
        self.served@
    }

    /// The worker's guard.
    pub closed spec fn guard(&self) -> DropIndicator {
        self.drop_indicator
    }

    /// A worker that applies `f` to what arrives on `in_rx` and answers on
    /// `out_tx`, watched over by `drop_indicator`.
    pub fn new(
        f: F,
        in_rx: Receiver<(usize, T)>,
        out_tx: Sender<(usize, O)>,
        drop_indicator: DropIndicator,
    ) -> (worker: Self)
        ensures
            worker.function() == f,
            worker.guard() == drop_indicator,
            worker.served() == Seq::<(usize, T, O)>::empty(),
    {
        Worker { drop_indicator, f, in_rx, out_tx, served: Ghost(Seq::empty()) }
    }

    /// Takes in what a wait for work ended with. An item is served: the
    /// function is applied to it, and the result is sent back under the
    /// item's index. Answers whether more work may come: it may after an
    /// item, and it will not once the channel was found closed.
    ///
    /// A result that cannot be sent, because the engine is gone, is thrown
    /// away.
    pub fn serve(&mut self, got: Result<(usize, T), RecvError>) -> (more: bool) where
        F: FnMut(T) -> O,

        requires
            forall|f: F, item: T| call_requires(f, (item,)),
        ensures
            final(self).guard() == old(self).guard(),
            more == got is Ok,
            got is Err ==> final(self).served() == old(self).served(),
            got matches Ok(tagged) ==> {
                &&& final(self).served().len() == old(self).served().len() + 1
                &&& final(self).served().drop_last() == old(self).served()
                &&& final(self).served().last().0 == tagged.0
                &&& final(self).served().last().1 == tagged.1
                &&& call_ensures(
                    old(self).function(),
                    (tagged.1,),
                    final(self).served().last().2,
                )
            },
    {
        match got {
            Ok(tagged) => {
                assert(call_requires(self.function(), (tagged.1,)));
                let ghost item = tagged.1;
                let result = apply_tagged(&mut self.f, tagged);
                proof {
                    self.served@ = self.served@.push((result.0, item, result.1));
                    assert(self.served@.drop_last() =~= old(self).served@);
                }
                // we ignore send failures, if the receiver is gone
                // we just throw the work away
                let _ = self.out_tx.send(result);
                true
            },
            Err(_) => false,
        }
    }

    /// Waits for one item and [serves](Self::serve) it. Answers whether more
    /// work may come: `false` once the engine has given up its end of the
    /// channel and nothing is queued.
    ///
    /// The function has to be one that can be called on every item, in
    /// whatever state earlier calls have left it.
    pub fn step(&mut self) -> (more: bool) where F: FnMut(T) -> O
        requires
            forall|f: F, item: T| call_requires(f, (item,)),
        ensures
            final(self).guard() == old(self).guard(),
            !more ==> final(self).served() == old(self).served(),
            more ==> final(self).served().len() == old(self).served().len() + 1
                && final(self).served().drop_last() == old(self).served() && call_ensures(
                old(self).function(),
                (final(self).served().last().1,),
                final(self).served().last().2,
            ),
    {
        let got = self.in_rx.recv();
        self.serve(got)
    }

    /// Ends the worker in the ordinary way: its guard is cancelled, so the
    /// flag stays as it is.
    pub fn finish(self) {
        self.drop_indicator.cancel();
    }

    /// Serves up to `budget` items, one [`step`](Self::step) after the
    /// other. A worker that finds no more work to come is finished, and
    /// nothing is handed back; a worker that has used up its budget is
    /// handed back as it is, to be run again.
    pub fn run(self, budget: usize) -> (rest: Option<Self>) where F: FnMut(T) -> O
        requires
            forall|f: F, item: T| call_requires(f, (item,)),
        ensures
            budget == 0 ==> rest == Some(self),
            rest matches Some(worker) ==> {
                &&& worker.guard() == self.guard()
                &&& worker.served().len() == self.served().len() + budget
                &&& self.served().is_prefix_of(worker.served())
            },
    {
        let mut worker = self;
        let mut left = budget;
        while left > 0
            invariant
                left <= budget,
                left == budget ==> worker == self,
                worker.guard() == self.guard(),
                worker.served().len() == self.served().len() + (budget - left),
                self.served().is_prefix_of(worker.served()),
                forall|f: F, item: T| call_requires(f, (item,)),
            decreases left,
        {
            let ghost before = worker.served();
            if !worker.step() {
                worker.finish();
                return None;
            }
            proof {
                assert(before == worker.served().drop_last());
            }
            left -= 1;
        }
        Some(worker)
    }
}

/// Like [`std::iter::Map`], but with the function applied by worker threads.
#[verifier::reject_recursive_types(I)]
#[verifier::reject_recursive_types(O)]
pub struct ParallelMap<I, O> where I: Iterator {
    // the iterator we wrapped
    iter: I,
    // is `iter` exhausted
    iter_done: bool,
    // number of worker threads to use
    num_threads: usize,
    // max number of items in flight
    buffer_size: usize,
    // the index of the item we are going to send next
    next_tx_i: usize,
    // the index of the result we are waiting for
    next_rx_i: usize,
    // raised by the guard of a worker that died
    worker_panicked: Arc<AtomicBool>,
    // results we received before we needed them
    out_of_order: Vec<(usize, O)>,
    // the channel ends we kept
    inner: ParallelMapInner<I::Item, O>,
    // why the pipeline stopped, once it has
    failure: Option<Failure>,
    // every item submitted, in order
    submitted: Ghost<Seq<I::Item>>,
    // every result accepted, by index
    received: Ghost<Map<int, O>>,
}

impl<I, O> View for ParallelMap<I, O> where I: Iterator {
    type V = Window<I::Item, O>;

    closed spec fn view(&self) -> Window<I::Item, O> {
        Window {
            submitted: self.submitted@,
            received: self.received@,
            next_rx: self.next_rx_i as nat,
            limit: self.buffer_size as nat,
            upstream_done: self.iter_done,
            failure: self.failure,
        }
    }
}

impl<I, O> ParallelMap<I, O> where I: Iterator {
    /// The upstream iterator, as far as it has not been consumed.
    pub closed spec fn upstream(&self) -> I {
        self.iter
    }

    /// The number of workers that this engine was set up for.
    pub closed spec fn threads(&self) -> usize {
        self.num_threads
    }

    /// The flag that the workers' guards raise.
    pub closed spec fn flag(&self) -> Arc<AtomicBool> {
        self.worker_panicked
    }

    /// The engine has its two channels. It gets them when it is started, or
    /// at the first pull.
    pub closed spec fn opened(&self) -> bool {
        self.inner.rx is Some
    }

    /// The workers' ends of the two channels have been handed out.
    pub closed spec fn crewed(&self) -> bool {
        self.inner.rx is Some && self.inner.spare is None
    }

    /// The engine's window is consistent and its fields agree with it.
    pub open spec fn wf(&self) -> bool {
        &&& self@.wf()
        &&& self.inv()
    }

    /// The engine's fields agree with its window: the counters, the channel
    /// to the workers and the buffer of early results. An engine that has
    /// its channels has been started.
    pub closed spec fn inv(&self) -> bool {
        &&& self.fields_agree()
        &&& self.inner.rx is Some ==> self@.stage() != Stage::NotStarted
    }

    /// The counters, the channel to the workers and the buffer of early
    /// results agree with the window.
    closed spec fn fields_agree(&self) -> bool {
        &&& self.num_threads >= 1
        &&& self.buffer_size <= MAX_CAPACITY
        &&& self.next_tx_i == self.submitted@.len()
        &&& self.iter_done <==> self.inner.rx is Some && self.inner.tx is None
        &&& self.inner.rx is None ==> self.inner.tx is None && self.inner.spare is None
        &&& buffer_holds_parked(
            self.out_of_order@,
            self.received@,
            self.next_rx_i as int,
            self.next_tx_i as int,
        )
    }

    /// Another handle to the flag that the workers' guards raise.
    pub fn share_flag(&self) -> (flag: Arc<AtomicBool>)
        ensures
            flag == self.flag(),
    {
        share_flag(&self.worker_panicked)
    }

    /// The number of workers that this engine was set up for.
    pub fn num_threads(&self) -> (threads: usize)
        ensures
            threads == self.threads(),
    {
        self.num_threads
    }

    /// The most items that this engine keeps in flight.
    pub fn buffer_size(&self) -> (limit: usize)
        ensures
            limit == self@.limit,
    {
        self.buffer_size
    }

    /// The bounds that upstream gives for the number of items it has left.
    /// Items that are in flight are not counted.
    pub fn size_hint(&self) -> (hint: (usize, Option<usize>)) {
        size_hint_of(&self.iter)
    }

    /// Where the engine stands.
    pub fn stage(&self) -> (stage: Stage)
        requires
            self.wf(),
        ensures
            stage == self@.stage(),
            stage == Stage::NotStarted ==> !self.opened(),
    {
        if self.failure.is_some() {
            Stage::Panicked
        } else if self.iter_done && self.next_rx_i == self.next_tx_i {
            Stage::Exhausted
        } else if self.next_tx_i == 0 && !self.iter_done {
            Stage::NotStarted
        } else {
            Stage::Running
        }
    }

    /// Creates the two channels, unless the engine has them.
    fn open(&mut self)
        requires
            old(self)@.wf(),
            old(self).fields_agree(),
        ensures
            final(self).fields_agree(),
            final(self).opened(),
            final(self).crewed() == old(self).crewed(),
            final(self)@ == old(self)@,
            final(self).upstream() == old(self).upstream(),
            final(self).threads() == old(self).threads(),
            final(self).flag() == old(self).flag(),
    {
        if self.inner.rx.is_none() {
            // Both channels can hold every item that may be in flight; how
            // many are in flight is decided by `pump_tx`.
            let (in_tx, in_rx) = crossbeam_channel::bounded(self.buffer_size);
            let (out_tx, out_rx) = crossbeam_channel::bounded(self.buffer_size);
            self.inner = ParallelMapInner {
                tx: Some(in_tx),
                rx: Some(out_rx),
                spare: Some((in_rx, out_tx)),
            };
        }
    }

    /// Creates the two channels, if the engine has none yet, and hands out
    /// the workers' ends: where items are taken from and where results are
    /// put. They are handed out once; a later call gets nothing.
    ///
    /// With the channels the engine is running: the in-flight window is
    /// filled.
    pub fn ensure_started(&mut self) -> (ends: Option<
        (Receiver<(usize, I::Item)>, Sender<(usize, O)>),
    >)
        requires
            old(self).wf(),
        ensures
            final(self).wf(),
            final(self).opened(),
            final(self).crewed(),
            ends is Some <==> !old(self).crewed(),
            old(self)@.pumps_to(final(self)@),
            final(self)@.received == old(self)@.received,
            final(self)@.next_rx == old(self)@.next_rx,
            old(self)@.failure is None && final(self)@.failure == Some(Failure::IndexOverflow)
                ==> final(self)@.next_tx() == usize::MAX,
            old(self)@.may_submit() && old(self)@.next_tx() == usize::MAX ==> final(self)@.failure
                == Some(Failure::IndexOverflow) && final(self).upstream() == old(self).upstream(),
            final(self)@.stage() != Stage::NotStarted,
            old(self)@.failure is Some || old(self)@.upstream_done || old(self)@.next_tx()
                == usize::MAX ==> final(self).upstream() == old(self).upstream(),
            old(self).upstream().obeys_prophetic_iter_laws() ==> {
                &&& final(self).upstream().obeys_prophetic_iter_laws()
                &&& old(self)@.draws_on(
                    old(self).upstream().remaining(),
                    final(self)@,
                    final(self).upstream().remaining(),
                )
                &&& final(self)@.failure is None && !old(self)@.upstream_done
                    ==> (final(self)@.upstream_done <==> old(self).upstream().remaining().len()
                    < old(self)@.limit
                    - old(self)@.in_flight())
                &&& old(self)@.failure is None && old(self).upstream().remaining().len() == 0
                    && old(self)@.next_tx() < usize::MAX ==> final(self)@.failure is None
            },
            final(self).threads() == old(self).threads(),
            final(self).flag() == old(self).flag(),
    {
        self.pump_tx();
        self.inner.spare.take()
    }

    /// Starts the engine, if that has not been done, and creates the
    /// workers, one for each thread. A call that finds the workers' ends
    /// handed out already gets no workers.
    ///
    /// Every worker has a clone of `f`, its own handles to the two channels
    /// and an armed guard on the engine's flag. The workers are handed back
    /// to be started, each on a thread of its own.
    pub fn workers<F>(&mut self, f: F) -> (workers: Vec<Worker<I::Item, O, F>>) where
        F: Clone + FnMut(I::Item) -> O,

        requires
            old(self).wf(),
        ensures
            final(self).wf(),
            final(self).opened(),
            final(self).crewed(),
            old(self)@.pumps_to(final(self)@),
            final(self)@.received == old(self)@.received,
            final(self)@.next_rx == old(self)@.next_rx,
            old(self)@.failure is None && final(self)@.failure == Some(Failure::IndexOverflow)
                ==> final(self)@.next_tx() == usize::MAX,
            old(self)@.may_submit() && old(self)@.next_tx() == usize::MAX ==> final(self)@.failure
                == Some(Failure::IndexOverflow) && final(self).upstream() == old(self).upstream(),
            final(self)@.stage() != Stage::NotStarted,
            old(self)@.failure is Some || old(self)@.upstream_done || old(self)@.next_tx()
                == usize::MAX ==> final(self).upstream() == old(self).upstream(),
            old(self).upstream().obeys_prophetic_iter_laws() ==> {
                &&& final(self).upstream().obeys_prophetic_iter_laws()
                &&& old(self)@.draws_on(
                    old(self).upstream().remaining(),
                    final(self)@,
                    final(self).upstream().remaining(),
                )
                &&& final(self)@.failure is None && !old(self)@.upstream_done
                    ==> (final(self)@.upstream_done <==> old(self).upstream().remaining().len()
                    < old(self)@.limit
                    - old(self)@.in_flight())
                &&& old(self)@.failure is None && old(self).upstream().remaining().len() == 0
                    && old(self)@.next_tx() < usize::MAX ==> final(self)@.failure is None
            },
            final(self).threads() == old(self).threads(),
            final(self).flag() == old(self).flag(),
            workers@.len() == if old(self).crewed() {
                0
            } else {
                old(self).threads() as int
            },
            forall|i: int|
                0 <= i < workers@.len() ==> {
                    &&& (#[trigger] workers@[i]).guard().armed()
                    &&& workers@[i].guard().flag() == old(self).flag()
                    &&& cloned(f, workers@[i].function())
                    &&& workers@[i].served().len() == 0
                },
    {
        let mut workers: Vec<Worker<I::Item, O, F>> = Vec::new();
        if let Some((in_rx, out_tx)) = self.ensure_started() {
            let mut started: usize = 0;
            while started < self.num_threads
                invariant
                    started <= self.num_threads,
                    workers@.len() == started,
                    forall|i: int|
                        0 <= i < workers@.len() ==> {
                            &&& (#[trigger] workers@[i]).guard().armed()
                            &&& workers@[i].guard().flag() == self.flag()
                            &&& cloned(f, workers@[i].function())
                            &&& workers@[i].served().len() == 0
                        },
                decreases self.num_threads - started,
            {
                let in_rx = in_rx.clone();
                let out_tx = out_tx.clone();
                let f = f.clone();
                let drop_indicator = DropIndicator::new(share_flag(&self.worker_panicked));
                workers.push(Worker::new(f, in_rx, out_tx, drop_indicator));
                started += 1;
            }
        }
        workers
    }

    /// Starts the engine eagerly, without waiting for the first pull: the
    /// channels are created and the in-flight window is filled.
    pub fn started(self) -> (engine: Self)
        requires
            self.wf(),
        ensures
            engine.wf(),
            engine.opened(),
            engine.crewed() == self.crewed(),
            engine.threads() == self.threads(),
            engine.flag() == self.flag(),
            self@.pumps_to(engine@),
            engine@.received == self@.received,
            engine@.next_rx == self@.next_rx,
            self@.failure is None && engine@.failure == Some(Failure::IndexOverflow)
                ==> engine@.next_tx() == usize::MAX,
            self@.may_submit() && self@.next_tx() == usize::MAX ==> engine@.failure == Some(
                Failure::IndexOverflow,
            ) && engine.upstream() == self.upstream(),
            engine@.stage() != Stage::NotStarted,
            self@.failure is Some || self@.upstream_done || self@.next_tx() == usize::MAX
                ==> engine.upstream() == self.upstream(),
            self.upstream().obeys_prophetic_iter_laws() ==> {
                &&& engine.upstream().obeys_prophetic_iter_laws()
                &&& self@.draws_on(
                    self.upstream().remaining(),
                    engine@,
                    engine.upstream().remaining(),
                )
                &&& engine@.failure is None && !self@.upstream_done ==> (engine@.upstream_done
                    <==> self.upstream().remaining().len() < self@.limit - self@.in_flight())
                &&& self@.failure is None && self.upstream().remaining().len() == 0
                    && self@.next_tx() < usize::MAX ==> engine@.failure is None
            },
    {
        let mut engine = self;
        engine.pump_tx();
        engine
    }

    /// Ends the pipeline with `failure`, unless it has failed before.
    fn fail(&mut self, failure: Failure)
        requires
            old(self).wf(),
        ensures
            final(self).wf(),
            final(self).upstream() == old(self).upstream(),
            final(self).threads() == old(self).threads(),
            final(self).flag() == old(self).flag(),
            final(self).opened() == old(self).opened(),
            final(self).crewed() == old(self).crewed(),
            final(self)@ == old(self)@.fail(failure),
    {
        if self.failure.is_none() {
            self.failure = Some(failure);
        }
    }

    /// Where the buffer holds the result for `index`, if it does.
    fn position(&self, index: usize) -> (found: Option<usize>)
        ensures
            match found {
                Some(j) => j < self.out_of_order@.len() && self.out_of_order@[j as int].0 == index,
                None => forall|j: int|
                    0 <= j < self.out_of_order@.len() ==> (#[trigger] self.out_of_order@[j]).0
                        != index,
            },
    {
        let mut j: usize = 0;
        while j < self.out_of_order.len()
            invariant
                j <= self.out_of_order@.len(),
                forall|k: int| 0 <= k < j ==> (#[trigger] self.out_of_order@[k]).0 != index,
            decreases self.out_of_order@.len() - j,
        {
            if self.out_of_order[j].0 == index {
                return Some(j);
            }
            j += 1;
        }
        None
    }

    /// Hands over the awaited result if it has been accepted already.
    pub fn take_ready(&mut self) -> (taken: Option<O>)
        requires
            old(self).wf(),
        ensures
            final(self).wf(),
            final(self).upstream() == old(self).upstream(),
            final(self).threads() == old(self).threads(),
            final(self).flag() == old(self).flag(),
            final(self).opened() == old(self).opened(),
            final(self).crewed() == old(self).crewed(),
            old(self)@.ready() ==> taken == Some(old(self)@.received[old(self)@.next_rx as int])
                && final(self)@ == old(self)@.release(),
            !old(self)@.ready() ==> taken is None && final(self)@ == old(self)@,
    {
        match self.position(self.next_rx_i) {
            Some(j) => {
                let entry = self.out_of_order.swap_remove(j);
                self.next_rx_i += 1;
                proof {
                    lemma_buffer_take(
                        old(self).out_of_order@,
                        self.received@,
                        old(self).next_rx_i as int,
                        self.next_tx_i as int,
                        j as int,
                    );
                }
                Some(entry.1)
            },
            None => None,
        }
    }

    /// Records a result that came back under `index`.
    ///
    /// A result is recorded once for an index that is in flight. Any other
    /// index ends the pipeline, and the value is dropped.
    pub fn accept(&mut self, index: usize, value: O) -> (awaited: bool)
        requires
            old(self).wf(),
        ensures
            final(self).wf(),
            final(self).upstream() == old(self).upstream(),
            final(self).threads() == old(self).threads(),
            final(self).flag() == old(self).flag(),
            final(self).opened() == old(self).opened(),
            final(self).crewed() == old(self).crewed(),
            awaited == old(self)@.awaits(index as int),
            final(self)@ == old(self)@.accept(index as int, value),
    {
        if index < self.next_rx_i || index >= self.next_tx_i {
            self.fail(Failure::UnexpectedIndex);
            return false;
        }
        match self.position(index) {
            Some(_) => {
                self.fail(Failure::UnexpectedIndex);
                false
            },
            None => {
                self.out_of_order.push((index, value));
                proof {
                    lemma_buffer_push(
                        old(self).out_of_order@,
                        self.received@,
                        self.next_rx_i as int,
                        self.next_tx_i as int,
                        index,
                        value,
                    );
                    self.received@ = self.received@.insert(index as int, value);
                }
                true
            },
        }
    }

    /// Fills the in-flight window: pulls items from upstream and submits
    /// them under consecutive indices until the window is full or upstream
    /// ends. At the end of upstream the channel to the workers is given up.
    ///
    /// An engine that has no channels yet gets them here: this is where an
    /// engine is started. An engine that has failed, or whose upstream has
    /// ended, is otherwise left as it is. A send that fails ends the pipeline.
    pub fn pump_tx(&mut self)
        requires
            old(self).wf(),
        ensures
            final(self).wf(),
            final(self).threads() == old(self).threads(),
            final(self).flag() == old(self).flag(),
            final(self).opened(),
            final(self).crewed() == old(self).crewed(),
            old(self)@.pumps_to(final(self)@),
            final(self)@.received == old(self)@.received,
            final(self)@.next_rx == old(self)@.next_rx,
            old(self)@.failure is None && final(self)@.failure == Some(Failure::IndexOverflow)
                ==> final(self)@.next_tx() == usize::MAX,
            old(self)@.may_submit() && old(self)@.next_tx() == usize::MAX ==> final(self)@.failure
                == Some(Failure::IndexOverflow) && final(self).upstream() == old(self).upstream(),
            old(self)@.failure is Some || old(self)@.upstream_done || old(self)@.next_tx()
                == usize::MAX ==> final(self).upstream() == old(self).upstream(),
            old(self).upstream().obeys_prophetic_iter_laws() ==> {
                &&& final(self).upstream().obeys_prophetic_iter_laws()
                &&& old(self)@.draws_on(
                    old(self).upstream().remaining(),
                    final(self)@,
                    final(self).upstream().remaining(),
                )
                &&& final(self)@.failure is None && !old(self)@.upstream_done
                    ==> (final(self)@.upstream_done <==> old(self).upstream().remaining().len()
                    < old(self)@.limit
                    - old(self)@.in_flight())
                &&& old(self)@.failure is None && old(self).upstream().remaining().len() == 0
                    && old(self)@.next_tx() < usize::MAX ==> final(self)@.failure is None
            },
    {
        self.open();
        if self.iter_done || self.failure.is_some() {
            return ;
        }
        while self.next_tx_i - self.next_rx_i < self.buffer_size
            invariant_except_break
                self@.failure is None,
                !self@.upstream_done,
                old(self)@.next_tx() == usize::MAX ==> self@ == old(self)@ && self.upstream()
                    == old(self).upstream(),
                old(self).upstream().obeys_prophetic_iter_laws() ==> self@.submitted
                    + self.upstream().remaining() == old(self)@.submitted
                    + old(self).upstream().remaining(),
            invariant
                self@.wf(),
                self.fields_agree(),
                self.threads() == old(self).threads(),
                self.flag() == old(self).flag(),
                self.opened(),
                self.crewed() == old(self).crewed(),
                old(self)@.extends_to(self@),
                self@.received == old(self)@.received,
                self@.next_rx == old(self)@.next_rx,
                old(self)@.failure is None,
                !old(self)@.upstream_done,
                old(self).upstream().obeys_prophetic_iter_laws()
                    ==> self.upstream().obeys_prophetic_iter_laws(),
                old(self).upstream().obeys_prophetic_iter_laws()
                    && old(self).upstream().remaining().len() == 0 ==> self@.submitted
                    == old(self)@.submitted,
            ensures
                self.wf(),
                self.threads() == old(self).threads(),
                self.flag() == old(self).flag(),
                self.opened(),
                self.crewed() == old(self).crewed(),
                old(self)@.extends_to(self@),
                self@.received == old(self)@.received,
                self@.next_rx == old(self)@.next_rx,
                !self@.may_submit(),
                self@.failure is Some ==> self@.failure == Some(Failure::SendFailed)
                    || self@.failure == Some(Failure::IndexOverflow),
                self@.failure == Some(Failure::IndexOverflow) ==> self@.next_tx() == usize::MAX
                    && !self@.upstream_done,
                old(self)@.may_submit() && old(self)@.next_tx() == usize::MAX ==> self@
                    == old(self)@.fail(Failure::IndexOverflow),
                old(self)@.next_tx() == usize::MAX ==> self.upstream() == old(self).upstream(),
                old(self).upstream().obeys_prophetic_iter_laws() ==> {
                    &&& self.upstream().obeys_prophetic_iter_laws()
                    &&& old(self)@.draws_on(
                        old(self).upstream().remaining(),
                        self@,
                        self.upstream().remaining(),
                    )
                    &&& self@.failure is None ==> (self@.upstream_done
                        <==> old(self).upstream().remaining().len() < old(self)@.limit
                        - old(self)@.in_flight())
                    &&& old(self).upstream().remaining().len() == 0 && old(self)@.next_tx()
                        < usize::MAX ==> self@.failure is None
                },
            decreases self.buffer_size - (self.next_tx_i - self.next_rx_i),
        {
            if self.next_tx_i == usize::MAX {
                self.failure = Some(Failure::IndexOverflow);
                break ;
            }
            let ghost rest = self.iter.remaining();
            let ghost so_far = self.submitted@;
            match self.iter.next() {
                Some(item) => {
                    let ghost submitted = item;
                    match &self.inner.tx {
                        Some(tx) => {
                            match tx.send((self.next_tx_i, item)) {
                                Ok(()) => {
                                    self.next_tx_i += 1;
                                    proof {
                                        self.submitted@ = self.submitted@.push(submitted);
                                        if old(self).upstream().obeys_prophetic_iter_laws() {
                                            assert(so_far.push(rest[0]) + rest.drop_first()
                                                =~= so_far + rest);
                                        }
                                    }
                                },
                                Err(_) => {
                                    self.failure = Some(Failure::SendFailed);
                                    proof {
                                        if old(self).upstream().obeys_prophetic_iter_laws() {
                                            let source = old(self)@.submitted + old(self).upstream(
                                                ).remaining();
                                            assert(source == so_far + rest);
                                            assert(so_far =~= source.take(so_far.len() as int));
                                            assert(rest.drop_first() =~= source.skip(
                                                so_far.len() as int + 1,
                                            ));
                                        }
                                    }
                                    break ;
                                },
                            }
                        },
                        None => {
                            break ;
                        },
                    }
                },
                None => {
                    self.iter_done = true;
                    self.inner.tx = None;
                    break ;
                },
            }
        }
    }

    /// Takes in what a wait on the result channel ended with, and says what
    /// the consumer is to be told.
    pub fn settle(&mut self, arrival: Arrival<O>) -> (step: Poll<O>)
        requires
            old(self).wf(),
        ensures
            final(self).wf(),
            final(self).upstream() == old(self).upstream(),
            final(self).threads() == old(self).threads(),
            final(self).flag() == old(self).flag(),
            final(self).opened() == old(self).opened(),
            final(self).crewed() == old(self).crewed(),
            final(self)@ == old(self)@.settle(arrival),
            step == old(self)@.answer(arrival),
    {
        if let Some(failure) = self.failure {
            return Poll::Failed(failure);
        }
        match arrival {
            Arrival::Result { index, value } => {
                if self.accept(index, value) {
                    match self.take_ready() {
                        Some(result) => Poll::Item(result),
                        None => Poll::Pending,
                    }
                } else {
                    Poll::Failed(Failure::UnexpectedIndex)
                }
            },
            Arrival::Timeout { panicked } => {
                if panicked {
                    self.failure = Some(Failure::WorkerPanicked);
                    Poll::Failed(Failure::WorkerPanicked)
                } else {
                    Poll::Pending
                }
            },
            Arrival::Disconnected { panicked } => {
                let failure = if panicked {
                    Failure::WorkerPanicked
                } else {
                    Failure::Disconnected
                };
                self.failure = Some(failure);
                Poll::Failed(failure)
            },
        }
    }

    /// Makes one attempt to get the next result in order.
    ///
    /// A result that has been accepted already is handed over at once, even
    /// if the pipeline has failed since. A pipeline that has failed answers
    /// with its failure from then on. Otherwise the window is filled, and
    /// unless that shows the end, the engine waits a moment for one result
    /// from the workers; what that wait ends with is taken in as
    /// [`settle`](Self::settle) says. Whenever a result is handed over the
    /// window is filled again.
    ///
    /// Which results arrive, and when, is the workers' doing. Whatever they
    /// do, the result handed over is the one recorded under the index the
    /// consumer waited for, `Pending` is answered only while that one is
    /// missing, a failure is final, and so is the end.
    pub fn poll(&mut self) -> (step: Poll<O>)
        requires
            old(self).wf(),
        ensures
            final(self).wf(),
            final(self).threads() == old(self).threads(),
            final(self).flag() == old(self).flag(),
            final(self).opened(),
            final(self).crewed() == old(self).crewed(),
            old(self)@.extends_to(final(self)@),
            !final(self)@.may_submit(),
            final(self)@.stage() != Stage::NotStarted,
            old(self)@.ready() ==> step is Item,
            old(self)@.failure is Some && !old(self)@.ready() ==> step == Poll::<O>::Failed(
                old(self)@.failure->0,
            ) && final(self)@ == old(self)@,
            old(self)@.exhausted() ==> step is End && final(self)@ == old(self)@,
            exists|mid: Window<I::Item, O>, arrival: Arrival<O>| #[trigger]
                old(self)@.polls_to(mid, arrival, final(self)@, step),
            old(self)@.upstream_done || old(self)@.failure is Some ==> final(self).upstream()
                == old(self).upstream() && final(self)@.submitted == old(self)@.submitted,
            old(self)@.failure is None && final(self)@.failure == Some(Failure::IndexOverflow)
                ==> final(self)@.next_tx() == usize::MAX,
            old(self)@.may_submit() && !old(self)@.ready() && old(self)@.next_tx() == usize::MAX
                ==> step == Poll::<O>::Failed(Failure::IndexOverflow) && final(self).upstream()
                == old(self).upstream(),
            old(self).upstream().obeys_prophetic_iter_laws() ==> {
                &&& final(self).upstream().obeys_prophetic_iter_laws()
                &&& old(self)@.draws_on(
                    old(self).upstream().remaining(),
                    final(self)@,
                    final(self).upstream().remaining(),
                )
            },
            old(self).upstream().obeys_prophetic_iter_laws() && old(self)@.failure is None
                && old(self)@.in_flight() == 0 && old(self).upstream().remaining().len() == 0
                && old(self)@.next_tx() < usize::MAX ==> step is End,
            match step {
                Poll::Item(result) => {
                    &&& final(self)@.next_rx == old(self)@.next_rx + 1
                    &&& result == final(self)@.received[old(self)@.next_rx as int]
                },
                Poll::End => final(self)@.exhausted() && final(self)@.next_rx == old(self)@.next_rx,
                Poll::Pending => {
                    &&& final(self)@.failure is None
                    &&& final(self)@.next_rx == old(self)@.next_rx
                    &&& !final(self)@.ready()
                    &&& !final(self)@.exhausted()
                },
                Poll::Failed(failure) => {
                    &&& final(self)@.failure == Some(failure)
                    &&& final(self)@.next_rx == old(self)@.next_rx
                },
            },
    {
        let ghost idle = Arrival::<O>::Timeout { panicked: false };
        // check if we didn't receive this item out of order
        if let Some(result) = self.take_ready() {
            self.pump_tx();
            assert(old(self)@.polls_to(old(self)@, idle, self@, Poll::Item(result)));
            return Poll::Item(result);
        }
        if let Some(failure) = self.failure {
            self.open();
            assert(old(self)@.polls_to(old(self)@, idle, self@, Poll::<O>::Failed(failure)));
            return Poll::Failed(failure);
        }
        self.pump_tx();
        let ghost mid = self@;
        if let Some(failure) = self.failure {
            assert(old(self)@.polls_to(mid, idle, self@, Poll::<O>::Failed(failure)));
            return Poll::Failed(failure);
        }
        // upstream is done, and all work sent was already received back
        if self.next_rx_i == self.next_tx_i && self.iter_done {
            assert(old(self)@.polls_to(mid, idle, self@, Poll::<O>::End));
            return Poll::End;
        }
        // there are multiple ways to detect worker panics, but here we
        // use a timeout to periodically check the flag.
        let arrival = match self.inner.rx.as_ref().unwrap().recv_timeout(
            Duration::from_micros(100),
        ) {
            Ok((index, value)) => Arrival::Result { index, value },
            Err(RecvTimeoutError::Timeout) => Arrival::Timeout {
                panicked: is_raised(&self.worker_panicked),
            },
            Err(RecvTimeoutError::Disconnected) => Arrival::Disconnected {
                panicked: is_raised(&self.worker_panicked),
            },
        };
        let step = self.settle(arrival);
        if let Poll::Item(_) = &step {
            self.pump_tx();
        }
        assert(old(self)@.polls_to(mid, arrival, self@, step));
        step
    }

    /// Asks for the next result in order, up to `attempts` times in a row.
    ///
    /// Every attempt is a [`poll`](Self::poll); the first one that ends with
    /// a result, with the end or with a failure is the answer. The answer is
    /// `Pending` if all attempts came to nothing, and so it is for no
    /// attempts at all.
    pub fn next(&mut self, attempts: usize) -> (step: Poll<O>)
        requires
            old(self).wf(),
        ensures
            final(self).wf(),
            final(self).threads() == old(self).threads(),
            final(self).flag() == old(self).flag(),
            final(self).opened() == (attempts > 0 || old(self).opened()),
            final(self).crewed() == old(self).crewed(),
            old(self)@.extends_to(final(self)@),
            attempts == 0 ==> step is Pending && final(self)@ == old(self)@
                && final(self).upstream() == old(self).upstream(),
            attempts > 0 ==> !final(self)@.may_submit() && final(self)@.stage()
                != Stage::NotStarted,
            attempts > 0 && old(self)@.ready() ==> step is Item,
            attempts > 0 && old(self)@.failure is Some && !old(self)@.ready() ==> step
                == Poll::<O>::Failed(old(self)@.failure->0) && final(self)@ == old(self)@,
            attempts > 0 && old(self)@.exhausted() ==> step is End && final(self)@ == old(self)@,
            attempts > 0 && old(self).upstream().obeys_prophetic_iter_laws()
                && old(self)@.failure is None && old(self)@.in_flight() == 0
                && old(self).upstream().remaining().len() == 0 && old(self)@.next_tx() < usize::MAX
                ==> step is End,
            attempts > 0 && old(self)@.may_submit() && !old(self)@.ready()
                && old(self)@.next_tx() == usize::MAX ==> step
                == Poll::<O>::Failed(Failure::IndexOverflow)
                && final(self).upstream() == old(self).upstream(),
            old(self)@.failure is None && final(self)@.failure == Some(Failure::IndexOverflow)
                ==> final(self)@.next_tx() == usize::MAX,
            old(self)@.upstream_done || old(self)@.failure is Some ==> final(self).upstream()
                == old(self).upstream() && final(self)@.submitted == old(self)@.submitted,
            old(self).upstream().obeys_prophetic_iter_laws() ==> {
                &&& final(self).upstream().obeys_prophetic_iter_laws()
                &&& old(self)@.draws_on(
                    old(self).upstream().remaining(),
                    final(self)@,
                    final(self).upstream().remaining(),
                )
            },
            attempts > 0
                ==> exists|last: Window<I::Item, O>, mid: Window<I::Item, O>, arrival: Arrival<O>|
                {
                    &&& old(self)@.extends_to(last)
                    &&& last.next_rx == old(self)@.next_rx
                    &&& last.failure == old(self)@.failure || last.failure is None
                    &&& #[trigger] last.polls_to(mid, arrival, final(self)@, step)
                },
            match step {
                Poll::Item(result) => {
                    &&& final(self)@.next_rx == old(self)@.next_rx + 1
                    &&& result == final(self)@.received[old(self)@.next_rx as int]
                },
                Poll::End => final(self)@.exhausted() && final(self)@.next_rx == old(self)@.next_rx,
                Poll::Pending => {
                    &&& final(self)@.next_rx == old(self)@.next_rx
                    &&& attempts > 0 ==> final(self)@.failure is None && !final(self)@.ready()
                        && !final(self)@.exhausted()
                },
                Poll::Failed(failure) => {
                    &&& final(self)@.failure == Some(failure)
                    &&& final(self)@.next_rx == old(self)@.next_rx
                },
            },
    {
        let mut left = attempts;
        let ghost mut last = self@;
        let ghost mut mid = self@;
        let ghost mut arrival = Arrival::<O>::Timeout { panicked: false };
        while left > 0
            invariant
                self.wf(),
                left <= attempts,
                self.threads() == old(self).threads(),
                self.flag() == old(self).flag(),
                self.opened() == (left < attempts || old(self).opened()),
                self.crewed() == old(self).crewed(),
                old(self)@.extends_to(self@),
                self@.next_rx == old(self)@.next_rx,
                left == attempts ==> self@ == old(self)@ && self.upstream() == old(self).upstream(),
                left < attempts ==> {
                    &&& old(self)@.failure is None
                    &&& self@.failure is None
                    &&& !self@.may_submit()
                    &&& self@.stage() != Stage::NotStarted
                    &&& !self@.ready()
                    &&& !self@.exhausted()
                    &&& !old(self)@.exhausted()
                    &&& !old(self)@.ready()
                    &&& !(old(self).upstream().obeys_prophetic_iter_laws()
                        && old(self)@.in_flight() == 0 && old(self).upstream().remaining().len()
                        == 0 && old(self)@.next_tx() < usize::MAX)
                    &&& !(old(self)@.may_submit() && old(self)@.next_tx() == usize::MAX)
                    &&& old(self)@.extends_to(last)
                    &&& last.next_rx == old(self)@.next_rx
                    &&& last.failure is None
                    &&& last.polls_to(mid, arrival, self@, Poll::<O>::Pending)
                },
                old(self)@.upstream_done || old(self)@.failure is Some ==> self.upstream()
                    == old(self).upstream() && self@.submitted == old(self)@.submitted,
                old(self).upstream().obeys_prophetic_iter_laws() ==> {
                    &&& self.upstream().obeys_prophetic_iter_laws()
                    &&& old(self)@.draws_on(
                        old(self).upstream().remaining(),
                        self@,
                        self.upstream().remaining(),
                    )
                },
            decreases left,
        {
            let ghost before = self@;
            let ghost before_rest = self.upstream().remaining();
            let step = self.poll();
            proof {
                lemma_extends_in_a_row(old(self)@, before, self@);
                if old(self).upstream().obeys_prophetic_iter_laws() {
                    lemma_draws_on_in_a_row(
                        old(self)@,
                        old(self).upstream().remaining(),
                        before,
                        before_rest,
                        self@,
                        self.upstream().remaining(),
                    );
                }
                let (m, a) = choose|m: Window<I::Item, O>, a: Arrival<O>| #[trigger]
                    before.polls_to(m, a, self@, step);
                last = before;
                mid = m;
                arrival = a;
            }
            match step {
                Poll::Pending => {},
                answer => {
                    return answer;
                },
            }
            left -= 1;
        }
        Poll::Pending
    }
}

} // verus!
