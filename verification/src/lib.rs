//! Iterator pipelines whose stages run on other threads, with the order of
//! the items kept.
//!
//! An [ordered parallel map](parallel_map) hands the items of an iterator to
//! worker threads and hands their results on in the order of the items. An
//! [ordered parallel filter](parallel_filter) is such a map whose workers
//! answer each item with the item or with nothing. A [readahead](readahead)
//! pulls an iterator on a thread of its own, a bounded number of items ahead
//! of its consumer. A worker that dies is [noticed](guard) by the consumer
//! at its next wait.
//!
//! What is proved of the order of the results is stated in [`order`], over
//! the model defined in [`window`].
//!
//! This crate holds the engines and the units of work that run on the
//! threads. It starts no thread itself: a unit of work is handed out to be
//! run wherever its user sees fit.
pub mod channel;
pub mod guard;
pub mod order;
pub mod parallel_filter;
pub mod parallel_map;
pub mod profile;
pub mod readahead;
pub mod window;

pub use guard::DropIndicator;
pub use parallel_filter::{FilterWorker, ParallelFilter, ParallelFilterBuilder};
pub use parallel_map::{ParallelMap, ParallelMapBuilder, Worker};
pub use profile::{
    FnReporter, Mark, PeriodicReporter, ProfileEgress, ProfileIngress, Profiler, Reporter,
    TotalTimeProfiler, TotalTimeStats,
};
pub use readahead::{Handoff, Producer, Readahead};
pub use window::{Arrival, Failure, Poll, Stage, Window};
