//! A profiler that adds up the time measured and tells a reporter about it.
//!
//! Time is counted in nanoseconds.
use crate::profile::Profiler;
use std::time::Instant;
use vstd::prelude::*;

verus! {

/// `std::time::Instant`, opaque to Verus.
#[verifier::external_type_specification]
#[verifier::external_body]
pub struct ExInstant(Instant);

/// `Instant::now`: the present moment. It is read from the clock, so nothing
/// is stated about it.
pub assume_specification[ Instant::now ]() -> (now: Instant)
;

/// `Instant::elapsed`: the time that has passed since `since`, in
/// nanoseconds. It is read from the clock, so nothing is stated about it.
#[verifier::external_body]
fn nanos_since(since: &Instant) -> (nanos: u128) {
    since.elapsed().as_nanos()
}

/// The nanoseconds in a microsecond. A measurement is shortened by this much,
/// so that waits that took no time to speak of do not add up.
pub const MEASUREMENT_SLACK: u128 = 1_000;

/// The nanoseconds in a millisecond.
pub const NANOS_PER_MILLI: u128 = 1_000_000;

/// A stats handle passed to reporters by [`TotalTimeProfiler`].
#[derive(Debug)]
pub struct TotalTimeStats {
    current: u128,
    total: u128,
}

/// Something that can react to the [`TotalTimeStats`] tracked by
/// [`TotalTimeProfiler`].
pub trait Reporter {
    /// Looks at the stats after a measurement, and may change them.
    fn handle_stats(&mut self, stats: &mut TotalTimeStats);
}

/// A function on the stats as a reporter.
pub struct FnReporter<F> where F: Fn(&mut TotalTimeStats) {
    f: F,
}

impl<F> FnReporter<F> where F: Fn(&mut TotalTimeStats) {
    /// The function can be called on any stats.
    #[verifier::type_invariant]
    spec fn callable(self) -> bool {
        forall|stats: &mut TotalTimeStats| call_requires(self.f, (stats,))
    }

    /// The function that is called.
    pub closed spec fn function(&self) -> F {
        self.f
    }

    /// A reporter that calls `f` on the stats.
    pub fn new(f: F) -> (reporter: Self)
        requires
            forall|stats: &mut TotalTimeStats| call_requires(f, (stats,)),
        ensures
            reporter.function() == f,
    {
        Self { f }
    }
}

impl<F> Reporter for FnReporter<F> where F: Fn(&mut TotalTimeStats) {
    /// Calls the function on the stats: the stats change as the function
    /// says of a reference that it is given to them.
    fn handle_stats(&mut self, stats: &mut TotalTimeStats)
        ensures
            final(self).function() == old(self).function(),
            exists|given: &mut TotalTimeStats|
                {
                    &&& *given == *old(stats)
                    &&& *final(given) == *final(stats)
                    &&& #[trigger] call_ensures(old(self).function(), (given,), ())
                },
    {
        proof {
            use_type_invariant(&*self);
        }
        (self.f)(stats);
        proof {
            // the function is the same before and after the call
            assert(old(self).function() == self.f);
        }
    }
}

impl TotalTimeStats {
    /// The length of the last measurement.
    pub closed spec fn current_nanos(&self) -> u128 {
        self.current
    }

    /// The time accumulated.
    pub closed spec fn total_nanos(&self) -> u128 {
        self.total
    }

    /// The stats after a measurement of `elapsed` nanoseconds: the
    /// measurement counts less the slack, and the total grows by what counts,
    /// stopping at the largest number it can hold.
    pub open spec fn recorded(self, elapsed: u128) -> (u128, u128) {
        let current = if elapsed >= MEASUREMENT_SLACK {
            (elapsed - MEASUREMENT_SLACK) as u128
        } else {
            0u128
        };
        let total = if self.total_nanos() + current > u128::MAX {
            u128::MAX
        } else {
            (self.total_nanos() + current) as u128
        };
        (current, total)
    }

    /// Stats with nothing measured.
    pub fn new() -> (stats: Self)
        ensures
            stats.current_nanos() == 0,
            stats.total_nanos() == 0,
    {
        TotalTimeStats { current: 0, total: 0 }
    }

    /// Takes in a measurement of `elapsed` nanoseconds.
    pub fn record(&mut self, elapsed: u128)
        ensures
            (final(self).current_nanos(), final(self).total_nanos()) == old(self).recorded(
                elapsed,
            ),
    {
        self.current = elapsed.saturating_sub(MEASUREMENT_SLACK);
        self.total = self.total.saturating_add(self.current);
    }

    /// Calls `f` if a whole `period` has accumulated, and takes the period
    /// off the total.
    pub fn periodically<F: FnOnce()>(&mut self, period: u128, f: F)
        requires
            f.requires(()),
        ensures
            final(self).current_nanos() == old(self).current_nanos(),
            old(self).total_nanos() >= period ==> final(self).total_nanos()
                == old(self).total_nanos() - period && f.ensures((), ()),
            old(self).total_nanos() < period ==> final(self).total_nanos()
                == old(self).total_nanos(),
    {
        if self.total >= period {
            self.total -= period;
            f();
        }
    }

    /// Get total accumulated time, in nanoseconds.
    pub fn total(&self) -> (nanos: u128)
        ensures
            nanos == self.total_nanos(),
    {
        self.total
    }

    /// Get mutable reference to total accumulated time, in nanoseconds.
    ///
    /// You're free to adjust it.
    pub fn total_mut(&mut self) -> (nanos: &mut u128)
        ensures
            *nanos == old(self).total_nanos(),
            final(self).total_nanos() == *final(nanos),
            final(self).current_nanos() == old(self).current_nanos(),
    {
        &mut self.total
    }
}

/// Reporter calling a function every time the total accumulated time being
/// tracked crosses a certain threshold.
///
/// Use [`TotalTimeProfiler::periodically_millis`] instead.
pub struct PeriodicReporter<F> where F: Fn() {
    threshold: u128,
    f: F,
}

impl<F> PeriodicReporter<F> where F: Fn() {
    /// The function can be called.
    #[verifier::type_invariant]
    spec fn callable(self) -> bool {
        self.f.requires(())
    }

    /// The threshold, in nanoseconds.
    pub closed spec fn threshold_nanos(&self) -> u128 {
        self.threshold
    }

    /// The function that is called.
    pub closed spec fn function(&self) -> F {
        self.f
    }

    /// A reporter that calls `f` for every `threshold` nanoseconds
    /// accumulated.
    pub fn new_millis(threshold: u128, f: F) -> (reporter: Self)
        requires
            f.requires(()),
        ensures
            reporter.threshold_nanos() == threshold,
            reporter.function() == f,
    {
        Self { threshold, f }
    }
}

impl<F> Reporter for PeriodicReporter<F> where F: Fn() {
    /// Calls the function once if the total has reached the threshold, and
    /// takes the threshold off the total.
    fn handle_stats(&mut self, stats: &mut TotalTimeStats)
        ensures
            final(self).threshold_nanos() == old(self).threshold_nanos(),
            final(self).function() == old(self).function(),
            final(stats).current_nanos() == old(stats).current_nanos(),
            final(stats).total_nanos() == if old(stats).total_nanos()
                >= old(self).threshold_nanos() {
                (old(stats).total_nanos() - old(self).threshold_nanos()) as u128
            } else {
                old(stats).total_nanos()
            },
    {
        proof {
            use_type_invariant(&*self);
        }
        stats.periodically(self.threshold, &self.f);
    }
}

/// A simple basic profiler implementation which tracks the accumulative time
/// and calls a reporter with it.
pub struct TotalTimeProfiler<R> {
    reporter: R,
    start: Instant,
    stats: TotalTimeStats,
    // the stats as the reporter was handed them, measurement by measurement
    handed: Ghost<Seq<(u128, u128)>>,
}

impl<R> TotalTimeProfiler<R> {
    /// The reporter that is told.
    pub closed spec fn reporter(&self) -> R {
        self.reporter
    }

    /// The stats tracked.
    pub closed spec fn stats(&self) -> TotalTimeStats {
        self.stats
    }

    /// The moment at which the measurement under way began.
    pub closed spec fn since(&self) -> Instant {
        self.start
    }

    /// The stats as the reporter was handed them, once for every measurement
    /// that was ended, in their order: the length of the measurement as it
    /// counts, and the total.
    pub closed spec fn handed(&self) -> Seq<(u128, u128)> {
        self.handed@
    }

    /// A profiler that tells `reporter`, with nothing measured so far.
    pub fn with_reporter(reporter: R) -> (profiler: Self)
        ensures
            profiler.reporter() == reporter,
            profiler.stats().current_nanos() == 0,
            profiler.stats().total_nanos() == 0,
            profiler.handed() == Seq::<(u128, u128)>::empty(),
    {
        Self {
            stats: TotalTimeStats::new(),
            start: Instant::now(),
            reporter,
            handed: Ghost(Seq::empty()),
        }
    }

    /// Begins a measurement at the moment `now`.
    pub fn start_at(&mut self, now: Instant)
        ensures
            final(self).since() == now,
            final(self).reporter() == old(self).reporter(),
            final(self).stats() == old(self).stats(),
            final(self).handed() == old(self).handed(),
    {
        self.start = now;
    }
}

impl<R> TotalTimeProfiler<R> where R: Reporter {
    /// Ends a measurement that took `elapsed` nanoseconds: the measurement is
    /// taken into the stats, and the reporter is handed the stats as they are
    /// then. What the reporter makes of them is up to the reporter.
    pub fn end_with(&mut self, elapsed: u128)
        ensures
            final(self).since() == old(self).since(),
            final(self).handed() == old(self).handed().push(old(self).stats().recorded(elapsed)),
    {
        self.stats.record(elapsed);
        proof {
            // what the reporter is handed now
            self.handed@ = self.handed@.push((self.stats.current, self.stats.total));
        }
        self.reporter.handle_stats(&mut self.stats);
    }
}

impl<F> TotalTimeProfiler<FnReporter<F>> where F: Fn(&mut TotalTimeStats) {
    /// Create a [`TotalTimeProfiler`] that calls `f` on the stats after every
    /// measurement.
    pub fn new(f: F) -> (profiler: Self)
        requires
            forall|stats: &mut TotalTimeStats| call_requires(f, (stats,)),
        ensures
            profiler.reporter().function() == f,
            profiler.stats().current_nanos() == 0,
            profiler.stats().total_nanos() == 0,
            profiler.handed() == Seq::<(u128, u128)>::empty(),
    {
        Self::with_reporter(FnReporter::new(f))
    }
}

impl<F> TotalTimeProfiler<PeriodicReporter<F>> where F: Fn() {
    /// A profiler that calls `f` for every `millis` milliseconds accumulated.
    pub fn periodically_millis(millis: u64, f: F) -> (profiler: Self)
        requires
            f.requires(()),
        ensures
            profiler.reporter().threshold_nanos() == millis * NANOS_PER_MILLI,
            profiler.reporter().function() == f,
            profiler.stats().current_nanos() == 0,
            profiler.stats().total_nanos() == 0,
            profiler.handed() == Seq::<(u128, u128)>::empty(),
    {
        Self::periodically(millis as u128 * NANOS_PER_MILLI, f)
    }

    /// A profiler that calls `f` for every `period` nanoseconds accumulated.
    pub fn periodically(period: u128, f: F) -> (profiler: Self)
        requires
            f.requires(()),
        ensures
            profiler.reporter().threshold_nanos() == period,
            profiler.reporter().function() == f,
            profiler.stats().current_nanos() == 0,
            profiler.stats().total_nanos() == 0,
            profiler.handed() == Seq::<(u128, u128)>::empty(),
    {
        Self::with_reporter(PeriodicReporter::new_millis(period, f))
    }
}

impl<R> Profiler for TotalTimeProfiler<R> where R: Reporter {
    /// Begins a measurement at the present moment.
    fn start(&mut self)
        ensures
            final(self).reporter() == old(self).reporter(),
            final(self).stats() == old(self).stats(),
            final(self).handed() == old(self).handed(),
    {
        self.start_at(Instant::now());
    }

    /// Ends the measurement with the time that has passed since it began:
    /// that time is taken into the stats, and the reporter is handed the
    /// stats as they are then.
    fn end(&mut self)
        ensures
            final(self).since() == old(self).since(),
            exists|elapsed: u128|
                final(self).handed() == old(self).handed().push(
                    #[trigger] old(self).stats().recorded(elapsed),
                ),
    {
        let elapsed = nanos_since(&self.start);
        self.end_with(elapsed);
    }
}

} // verus!
