//! Telling the consumer that a worker died.
//!
//! A thread that unwinds cannot report the fact itself. Each worker therefore
//! holds a [`DropIndicator`] on a flag it shares with the consumer: a guard
//! that is dropped while still armed raises the flag, and a worker that ends
//! in the ordinary way disarms its guard first. The flag starts lowered and is
//! never lowered again.
use std::sync::atomic::{AtomicBool, Ordering};
use std::sync::Arc;
use vstd::prelude::*;

verus! {

/// A new flag, lowered.
pub fn new_flag() -> (flag: Arc<AtomicBool>) {
    Arc::new(AtomicBool::new(false))
}

/// Another handle to the same flag.
pub fn share_flag(flag: &Arc<AtomicBool>) -> (other: Arc<AtomicBool>)
    ensures
        other == *flag,
{
    flag.clone()
}

/// Whether some guard on this flag was dropped while armed.
///
/// The answer depends on what other threads have done by now, so nothing is
/// known about it beforehand.
pub fn is_raised(flag: &Arc<AtomicBool>) -> (raised: bool) {
    flag.load(Ordering::SeqCst)
}

/// `AtomicBool::store` with sequentially consistent ordering: `value` is
/// written to `flag`.
///
/// With this ordering the store does not panic, which is all that is claimed:
/// it is what lets the call stand in a destructor.
#[verifier::external_body]
fn raise(flag: &AtomicBool, value: bool)
    opens_invariants none
    no_unwind
{
    flag.store(value, Ordering::SeqCst);
}

/// A guard that raises a shared flag when it is dropped, unless it was
/// cancelled before.
pub struct DropIndicator {
    canceled: bool,
    indicator: Arc<AtomicBool>,
}

impl DropIndicator {
    /// Whether dropping this guard raises the flag.
    pub closed spec fn armed(&self) -> bool {
        !self.canceled
    }

    /// The flag that this guard watches over.
    pub closed spec fn flag(&self) -> Arc<AtomicBool> {
        self.indicator
    }

    /// An armed guard on `indicator`.
    pub fn new(indicator: Arc<AtomicBool>) -> (guard: Self)
        ensures
            guard.armed(),
            guard.flag() == indicator,
    {
        DropIndicator { canceled: false, indicator }
    }

    /// Disarms the guard in place: dropping it no longer raises the flag.
    pub fn disarm(&mut self)
        ensures
            !final(self).armed(),
            final(self).flag() == old(self).flag(),
    {
        self.canceled = true;
    }

    /// Ends the guard's watch without raising the flag.
    pub fn cancel(self) {
        let mut guard = self;
        guard.disarm();
    }
}

impl Drop for DropIndicator {
    fn drop(&mut self)
        opens_invariants none
        no_unwind
    {
        if !self.canceled {
            raise(&self.indicator, true);
        }
    }
}

} // verus!
