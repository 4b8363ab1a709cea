//! Measuring where a pipeline waits.
//!
//! Two wrappers are put around a stage. [`ProfileEgress`] stands upstream of
//! it and times the consumer: the clock runs from the moment an item is
//! handed out until the next one is asked for. [`ProfileIngress`] stands
//! downstream and times the producer: the clock runs while the stage is asked
//! for its next item. Both drive a [`Profiler`], which does the timing.
pub mod simple;

pub use simple::{FnReporter, PeriodicReporter, Reporter, TotalTimeProfiler, TotalTimeStats};
use vstd::prelude::*;
use vstd::std_specs::iter::IteratorSpec;

verus! {

/// An interface to profile iterator consumption/production performance.
///
/// In real applications utilizing pipelining it's important to measure the
/// production and consumption rates of each pipeline step, to help identify
/// the current bottleneck.
///
/// [`ProfileEgress`] and [`ProfileIngress`] always call `start` first, and
/// then the corresponding `end` before they call `start` again. The final
/// `end` is not guaranteed to be called, and [`ProfileEgress`] will usually
/// leave its last `start` without an `end`, since nobody can tell whether the
/// next step of the chain will ask for another item.
pub trait Profiler {
    /// Begins a measurement.
    fn start(&mut self);

    /// Ends the measurement under way.
    fn end(&mut self);
}

/// A call that a wrapper made on its profiler.
#[derive(Clone, Copy, Debug, PartialEq, Eq, Structural)]
pub enum Mark {
    /// A call of [`Profiler::start`].
    Start,
    /// A call of [`Profiler::end`].
    End,
}

/// The calls come in pairs: a `Start` first, and after every `Start` an `End`
/// before the next `Start`. The last `Start` may still wait for its `End`.
pub open spec fn paired(calls: Seq<Mark>) -> bool {
    forall|i: int|
        0 <= i < calls.len() ==> #[trigger] calls[i] == if i % 2 == 0 {
            Mark::Start
        } else {
            Mark::End
        }
}

/// Profiles the time spent waiting for the downstream iterator step to
/// consume the previous returned item and ask for the next one (or in other
/// words, the time NOT spent waiting on `next()` of the inner iterator).
pub struct ProfileEgress<I, P> {
    inner: I,
    profiler: P,
    first_returned: bool,
    // every call made on the profiler, in order
    calls: Ghost<Seq<Mark>>,
}

/// Profiles the time spent waiting for the upstream iterator step to produce
/// the next returned item (or in other words, the time it took to call
/// `next()`).
pub struct ProfileIngress<I, P> {
    inner: I,
    profiler: P,
    // every call made on the profiler, in order
    calls: Ghost<Seq<Mark>>,
}

impl<I, P> ProfileEgress<I, P> {
    /// The iterator that is wrapped.
    pub closed spec fn inner(&self) -> I {
        self.inner
    }

    /// The calls made on the profiler so far, in order.
    pub closed spec fn calls(&self) -> Seq<Mark> {
        self.calls@
    }

    /// Whether an item has been asked for before.
    pub closed spec fn pulled_before(&self) -> bool {
        self.first_returned
    }

    /// No call was made before the first pull, and since then the clock has
    /// been left running after every pull.
    pub open spec fn wf(&self) -> bool {
        &&& paired(self.calls())
        &&& self.calls().len() % 2 == if self.pulled_before() {
            1int
        } else {
            0int
        }
        &&& !self.pulled_before() ==> self.calls().len() == 0
    }

    /// A wrapper around `inner` that has not been asked for anything yet.
    pub fn new(inner: I, profiler: P) -> (egress: Self)
        ensures
            egress.wf(),
            egress.inner() == inner,
            !egress.pulled_before(),
            egress.calls() == Seq::<Mark>::empty(),
    {
        Self { inner, profiler, first_returned: false, calls: Ghost(Seq::empty()) }
    }
}

impl<I, P> ProfileEgress<I, P> where I: Iterator, P: Profiler {
    /// Asks the inner iterator for its next item. The measurement that began
    /// when the previous item was handed out is ended first, and a new one
    /// begins when this item is handed out.
    pub fn next(&mut self) -> (item: Option<I::Item>)
        requires
            old(self).wf(),
        ensures
            final(self).wf(),
            final(self).pulled_before(),
            final(self).calls() == if old(self).pulled_before() {
                old(self).calls().push(Mark::End).push(Mark::Start)
            } else {
                old(self).calls().push(Mark::Start)
            },
            old(self).inner().obeys_prophetic_iter_laws() ==> {
                &&& final(self).inner().obeys_prophetic_iter_laws()
                &&& old(self).inner().remaining().len() > 0 ==> item == Some(
                    old(self).inner().remaining()[0],
                ) && final(self).inner().remaining() == old(self).inner().remaining().drop_first()
                &&& old(self).inner().remaining().len() == 0 ==> item is None
                    && final(self).inner().remaining().len() == 0
            },
    {
        if self.first_returned {
            self.profiler.end();
            proof {
                self.calls@ = self.calls@.push(Mark::End);
            }
        } else {
            // might as well switch it before actually pulling
            self.first_returned = true;
        }
        let item = self.inner.next();
        self.profiler.start();
        proof {
            self.calls@ = self.calls@.push(Mark::Start);
        }
        item
    }
}

impl<I, P> ProfileIngress<I, P> {
    /// The iterator that is wrapped.
    pub closed spec fn inner(&self) -> I {
        self.inner
    }

    /// The calls made on the profiler so far, in order.
    pub closed spec fn calls(&self) -> Seq<Mark> {
        self.calls@
    }

    /// The clock stands still between two pulls.
    pub open spec fn wf(&self) -> bool {
        &&& paired(self.calls())
        &&& self.calls().len() % 2 == 0
    }

    /// A wrapper around `inner`.
    pub fn new(inner: I, profiler: P) -> (ingress: Self)
        ensures
            ingress.wf(),
            ingress.inner() == inner,
            ingress.calls() == Seq::<Mark>::empty(),
    {
        Self { inner, profiler, calls: Ghost(Seq::empty()) }
    }
}

impl<I, P> ProfileIngress<I, P> where I: Iterator, P: Profiler {
    /// Asks the inner iterator for its next item, with the clock running
    /// while it is asked.
    pub fn next(&mut self) -> (item: Option<I::Item>)
        requires
            old(self).wf(),
        ensures
            final(self).wf(),
            old(self).inner().obeys_prophetic_iter_laws() ==> {
                &&& final(self).inner().obeys_prophetic_iter_laws()
                &&& old(self).inner().remaining().len() > 0 ==> item == Some(
                    old(self).inner().remaining()[0],
                ) && final(self).inner().remaining() == old(self).inner().remaining().drop_first()
                &&& old(self).inner().remaining().len() == 0 ==> item is None
                    && final(self).inner().remaining().len() == 0
            },
            final(self).calls() == old(self).calls().push(Mark::Start).push(Mark::End),
    {
        self.profiler.start();
        let item = self.inner.next();
        self.profiler.end();
        proof {
            self.calls@ = self.calls@.push(Mark::Start).push(Mark::End);
        }
        item
    }
}

} // verus!
