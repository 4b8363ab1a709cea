use crossbeam_channel::{Receiver, Sender};
use pariter::{DropIndicator, Failure, ParallelMapBuilder, Poll};

/// A worker made by hand, with a function that may fail. On a thread of its
/// own a failing function would unwind the thread, and with it drop the
/// guard while armed and let go of the channels. Here the worker does just
/// that, without the unwinding.
struct FailingWorker {
    guard: DropIndicator,
    queue: Receiver<(usize, usize)>,
    answers: Sender<(usize, usize)>,
    f: fn(usize) -> Option<usize>,
}

impl FailingWorker {
    /// Serves one item; `false` if the function failed on it.
    fn step(&mut self) -> bool {
        let (index, item) = self.queue.recv().unwrap();
        match (self.f)(item) {
            Some(result) => {
                let _ = self.answers.send((index, result));
                true
            }
            None => false,
        }
    }
}

/// Counts what an ordered parallel map over `0..10` hands over, with
/// `threads` workers whose function fails where it answers `None`. A failure
/// of the pipeline is a panic, as it is for the consumer of an iterator.
fn count(threads: usize, f: fn(usize) -> Option<usize>) -> usize {
    match outcome(threads, f) {
        Ok(handed_over) => handed_over,
        Err((_, failure)) => panic!("parallel_map {}", failure.message()),
    }
}

/// What the consumer of such a map sees: how many results it was handed,
/// and the failure that ended the pipeline, if one did.
fn outcome(threads: usize, f: fn(usize) -> Option<usize>) -> Result<usize, (usize, Failure)> {
    let mut engine =
        ParallelMapBuilder::new(0..10usize).threads(threads).with_common::<usize>();
    let (queue, answers) = engine.ensure_started().expect("the first start");
    let mut workers: Vec<FailingWorker> = (0..engine.num_threads())
        .map(|_| FailingWorker {
            guard: DropIndicator::new(engine.share_flag()),
            queue: queue.clone(),
            answers: answers.clone(),
            f,
        })
        .collect();
    drop(answers);
    let mut handed_over = 0;
    let mut turn = 0;
    loop {
        match engine.poll() {
            Poll::Item(_) => handed_over += 1,
            Poll::End => return Ok(handed_over),
            Poll::Pending => {
                while !queue.is_empty() && !workers.is_empty() {
                    let at = turn % workers.len();
                    if !workers[at].step() {
                        // the worker dies
                        drop(workers.remove(at));
                    }
                    turn += 1;
                }
            }
            Poll::Failed(failure) => return Err((handed_over, failure)),
        }
    }
}

#[test]
fn no_failure_no_panic() {
    assert_eq!(count(1, |i| Some(i)), 10);
    assert_eq!(count(8, |i| Some(i)), 10);
    assert_eq!(count(11, |i| Some(i)), 10);
}

#[test]
#[should_panic]
fn panic_always_1() {
    count(1, |_| None);
}

#[test]
#[should_panic]
fn panic_always_8() {
    count(8, |_| None);
}

#[test]
#[should_panic]
fn panic_once_1() {
    count(1, |i| if i == 5 { None } else { Some(i) });
}

#[test]
#[should_panic]
fn panic_once_8() {
    count(8, |i| if i == 5 { None } else { Some(i) });
}

#[test]
#[should_panic]
fn panic_after_a_point_1() {
    count(1, |i| if i > 5 { None } else { Some(i) });
}

#[test]
#[should_panic]
fn panic_after_a_point_8() {
    count(8, |i| if i > 5 { None } else { Some(i) });
}

#[test]
#[should_panic]
fn panic_before_a_point_1() {
    count(1, |i| if i < 5 { None } else { Some(i) });
}

#[test]
#[should_panic]
fn panic_before_a_point_8() {
    count(8, |i| if i < 5 { None } else { Some(i) });
}

#[test]
fn a_failure_on_one_item_fails_the_pipeline_whatever_the_thread_count() {
    for threads in [1, 2, 8, 31] {
        // first, middle, last, every item
        assert_eq!(
            outcome(threads, |i| if i == 0 { None } else { Some(i) }),
            Err((0, Failure::WorkerPanicked))
        );
        assert!(matches!(
            outcome(threads, |i| if i == 5 { None } else { Some(i) }),
            Err((handed_over, Failure::WorkerPanicked)) if handed_over <= 5
        ));
        assert!(matches!(
            outcome(threads, |i| if i == 9 { None } else { Some(i) }),
            Err((handed_over, Failure::WorkerPanicked)) if handed_over <= 9
        ));
        assert_eq!(outcome(threads, |_| None), Err((0, Failure::WorkerPanicked)));
    }
}

#[test]
fn results_that_were_ready_before_the_failure_are_still_handed_over() {
    // one worker serves the items in order and dies on the sixth
    assert_eq!(
        outcome(1, |i| if i == 5 { None } else { Some(i) }),
        Err((5, Failure::WorkerPanicked))
    );
    assert_eq!(
        outcome(1, |i| if i == 9 { None } else { Some(i) }),
        Err((9, Failure::WorkerPanicked))
    );
}
