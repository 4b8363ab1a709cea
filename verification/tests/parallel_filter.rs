use pariter::parallel_filter::keep_tagged;
use pariter::{Failure, FilterWorker, ParallelFilter, ParallelFilterBuilder, Poll, Stage};

fn is_even(x: &usize) -> bool {
    x % 2 == 0
}

/// Runs a filter to its end on this thread: whenever nothing comes out, the
/// workers take turns, as long as items wait for them.
fn run<I, F>(
    filter: &mut ParallelFilter<I>,
    workers: &mut Vec<FilterWorker<I::Item, F>>,
    mut waiting: usize,
) -> Vec<I::Item>
where
    I: Iterator,
    F: FnMut(&I::Item) -> bool,
{
    let mut out = Vec::new();
    let mut turn = 0;
    let mut idle = 0;
    loop {
        match filter.poll() {
            Poll::Item(v) => {
                idle = 0;
                out.push(v)
            }
            Poll::End => return out,
            Poll::Pending => {
                idle += 1;
                // two attempts in a row that hand over nothing: the answers
                // are all used up, so the workers are due
                if idle >= 2 {
                    let n = workers.len();
                    for _ in 0..waiting.max(1) {
                        assert!(workers[turn % n].step());
                        turn += 1;
                    }
                    waiting = 1;
                    idle = 0;
                }
            }
            Poll::Failed(failure) => panic!("{:?}", failure),
        }
    }
}

fn filter_all(input: Vec<usize>, threads: usize, window: usize) -> Vec<usize> {
    let (mut filter, work) = ParallelFilterBuilder::new(input.into_iter())
        .threads(threads)
        .buffer_size(window)
        .with(is_even);
    let mut workers = filter.workers(work);
    let out = run(&mut filter, &mut workers, 1);
    for mut w in workers {
        assert!(!w.step());
        w.finish();
    }
    out
}

#[test]
fn filter_agrees_with_sequential_filter() {
    let inputs: Vec<Vec<usize>> = vec![
        vec![],
        vec![1],
        vec![2],
        vec![1, 3, 5, 7],
        vec![0, 2, 4],
        vec![3, 1, 4, 1, 5, 9, 2, 6, 5, 3, 5, 8],
        (0..100).collect(),
    ];
    for v in inputs {
        for threads in [1, 3, 8] {
            let expected: Vec<usize> = v.iter().copied().filter(|x| x % 2 == 0).collect();
            assert_eq!(filter_all(v.clone(), threads, 1), expected);
        }
    }
}

#[test]
fn an_item_that_is_rejected_is_skipped_not_handed_over() {
    let (mut filter, work) = ParallelFilterBuilder::new(vec![1usize, 2].into_iter())
        .threads(1)
        .buffer_size(1)
        .with(is_even);
    let mut workers = filter.workers(work);
    assert_eq!(filter.poll(), Poll::Pending);
    assert!(workers[0].step());
    // the answer for 1 is nothing
    assert_eq!(filter.poll(), Poll::Pending);
    assert_eq!(filter.poll(), Poll::Pending);
    assert!(workers[0].step());
    assert_eq!(filter.poll(), Poll::Item(2));
    assert_eq!(filter.poll(), Poll::End);
    assert_eq!(filter.poll(), Poll::End);
}

#[test]
fn the_answer_is_the_item_or_nothing() {
    let mut even = |x: &u32| x % 2 == 0;
    assert_eq!(keep_tagged(&mut even, (3, 10)), (3, Some(10)));
    assert_eq!(keep_tagged(&mut even, (4, 11)), (4, None));
    let mut seen = Vec::new();
    let mut all = |x: &&str| {
        seen.push(x.to_string());
        true
    };
    assert_eq!(keep_tagged(&mut all, (0, "a")), (0, Some("a")));
    assert_eq!(seen, vec!["a".to_string()]);
}

#[test]
fn the_settings_reach_the_engine() {
    let (mut _filter, work) = ParallelFilterBuilder::new(0..5usize).threads(3).with(is_even);
    let workers = _filter.workers(work);
    assert_eq!(workers.len(), 3);
    let (mut _filter, work) = ParallelFilterBuilder::new(0..5usize)
        .threads(7)
        .buffer_size(2)
        .with(is_even);
    let workers = _filter.workers(work);
    assert_eq!(workers.len(), 7);
    let (mut _filter, work) = ParallelFilterBuilder::new(0..5usize).with(is_even);
    let workers = _filter.workers(work);
    assert!(workers.len() >= 1);
}

#[test]
fn a_filter_worker_that_dies_fails_the_next_wait() {
    let (mut filter, work) =
        ParallelFilterBuilder::new((0..10usize).into_iter()).threads(1).with(is_even);
    let mut workers = filter.workers(work);
    assert_eq!(filter.poll(), Poll::Pending);
    assert!(workers[0].step());
    assert_eq!(filter.poll(), Poll::Item(0));
    drop(workers.pop());
    assert_eq!(filter.poll(), Poll::Failed(Failure::WorkerPanicked));
    assert_eq!(filter.poll(), Poll::Failed(Failure::WorkerPanicked));
}

#[test]
fn a_filter_goes_through_its_stages() {
    let (mut filter, work) = ParallelFilterBuilder::new(vec![4usize].into_iter())
        .threads(1)
        .buffer_size(1)
        .with(is_even);
    assert_eq!(filter.stage(), Stage::NotStarted);
    assert_eq!(filter.size_hint(), (1, Some(1)));
    let mut filter = filter.started();
    assert_eq!(filter.stage(), Stage::Running);
    let mut workers = filter.workers(work);
    assert_eq!(workers.len(), 1);
    assert_eq!(filter.size_hint(), (0, Some(0)));
    assert!(workers[0].step());
    assert_eq!(filter.poll(), Poll::Item(4));
    assert_eq!(filter.poll(), Poll::End);
    assert_eq!(filter.stage(), Stage::Exhausted);
}

#[test]
fn asking_several_times_in_a_row_skips_what_is_rejected() {
    let (mut filter, work) = ParallelFilterBuilder::new(vec![1usize, 3, 5, 6, 7].into_iter())
        .threads(1)
        .buffer_size(5)
        .with(is_even);
    assert_eq!(filter.next(0), Poll::Pending);
    assert_eq!(filter.stage(), Stage::NotStarted);
    let mut workers = filter.workers(work);
    assert_eq!(filter.stage(), Stage::Running);
    assert_eq!(filter.next(2), Poll::Pending);
    for _ in 0..5 {
        assert!(workers[0].step());
    }
    // three nothings are skipped on the way to the first item
    assert_eq!(filter.next(3), Poll::Pending);
    assert_eq!(filter.next(1), Poll::Item(6));
    assert_eq!(filter.next(9), Poll::End);
    assert_eq!(filter.next(9), Poll::End);
}

#[test]
fn a_filter_worker_runs_until_no_work_is_left() {
    let (mut filter, work) =
        ParallelFilterBuilder::new(0..4usize).threads(1).buffer_size(4).with(is_even);
    let mut workers = filter.workers(work);
    assert_eq!(filter.poll(), Poll::Pending);
    let worker = workers.pop().unwrap().run(4).expect("handed back");
    assert_eq!(filter.next(9), Poll::Item(0));
    assert_eq!(filter.next(9), Poll::Item(2));
    assert_eq!(filter.next(9), Poll::End);
    assert!(worker.run(1).is_none());
}

#[test]
fn a_filter_worker_serves_what_its_wait_ended_with() {
    let (mut filter, work) = ParallelFilterBuilder::new(vec![4usize, 5].into_iter())
        .threads(1)
        .buffer_size(3)
        .with(is_even);
    let mut workers = filter.workers(work);
    assert_eq!(filter.poll(), Poll::Pending);
    let worker = &mut workers[0];
    assert!(!worker.serve(Err(crossbeam_channel::RecvError)));
    assert_eq!(filter.poll(), Poll::Pending);
    assert!(worker.serve(Ok((1, 5))));
    assert!(worker.serve(Ok((0, 4))));
    assert_eq!(filter.next(5), Poll::Item(4));
    assert_eq!(filter.next(5), Poll::End);
}

#[test]
fn the_workers_of_a_filter_are_handed_out_once() {
    let (mut filter, work) = ParallelFilterBuilder::new(0..6usize)
        .threads(2)
        .buffer_size(2)
        .with(is_even);
    assert_eq!(filter.stage(), Stage::NotStarted);
    // a pull starts the filter, and the workers can still be had after it
    assert_eq!(filter.poll(), Poll::Pending);
    assert_eq!(filter.stage(), Stage::Running);
    let mut workers = filter.workers(work);
    assert_eq!(workers.len(), 2);
    assert!(filter.workers(is_even).is_empty());
    assert!(filter.ensure_started().is_none());
    assert!(workers[0].step());
    assert_eq!(filter.poll(), Poll::Item(0));

    let (mut filter, _work) = ParallelFilterBuilder::new(0..6usize).threads(3).with(is_even);
    let (queue, _answers) = filter.ensure_started().expect("the first start");
    assert_eq!(filter.stage(), Stage::Running);
    assert_eq!(queue.len(), 6);
    assert!(filter.workers(is_even).is_empty());
}
