use pariter::{
    DropIndicator, FilterWorker, ParallelFilterBuilder, ParallelMapBuilder, Poll, ProfileEgress,
    ProfileIngress, Producer, Readahead, TotalTimeProfiler, Worker,
};
use quickcheck::QuickCheck;

/// An ordered parallel map as an iterator that does the workers' part itself.
fn parallel_map<I, O, F>(
    iter: I,
    threads: Option<usize>,
    window: Option<usize>,
    f: F,
) -> impl Iterator<Item = O>
where
    I: Iterator,
    F: FnMut(I::Item) -> O + Clone,
{
    let mut builder = ParallelMapBuilder::new(iter);
    if let Some(threads) = threads {
        builder = builder.threads(threads);
    }
    if let Some(window) = window {
        builder = builder.buffer_size(window);
    }
    let mut engine = builder.with_common::<O>();
    let (queue, answers) = engine.ensure_started().expect("the first start");
    let mut workers: Vec<Worker<I::Item, O, F>> = (0..engine.num_threads())
        .map(|_| {
            Worker::new(
                f.clone(),
                queue.clone(),
                answers.clone(),
                DropIndicator::new(engine.share_flag()),
            )
        })
        .collect();
    drop(answers);
    let mut turn = 0;
    std::iter::from_fn(move || loop {
        match engine.poll() {
            Poll::Item(item) => return Some(item),
            Poll::End => return None,
            Poll::Pending => {
                while !queue.is_empty() {
                    let n = workers.len();
                    assert!(workers[turn % n].step());
                    turn += 1;
                }
            }
            Poll::Failed(failure) => panic!("parallel_map {}", failure.message()),
        }
    })
}

/// An ordered parallel filter as an iterator, in the same way.
fn parallel_filter<I, F>(iter: I, f: F) -> impl Iterator<Item = I::Item>
where
    I: Iterator,
    F: FnMut(&I::Item) -> bool + Clone,
{
    let (mut filter, work) =
        ParallelFilterBuilder::new(iter).buffer_size(1).with(f);
    let mut workers: Vec<FilterWorker<I::Item, F>> = filter.workers(work);
    let mut idle = 0;
    std::iter::from_fn(move || loop {
        match filter.poll() {
            Poll::Item(item) => {
                idle = 0;
                return Some(item);
            }
            Poll::End => return None,
            Poll::Pending => {
                idle += 1;
                if idle >= 2 {
                    assert!(workers[0].step());
                    idle = 0;
                }
            }
            Poll::Failed(failure) => panic!("parallel_filter {}", failure.message()),
        }
    })
}

/// A readahead as an iterator that does the producer's part itself.
fn readahead<I: Iterator>(iter: I, buffer_size: usize) -> impl Iterator<Item = I::Item> {
    let (mut readahead, producer) = Readahead::new(iter, buffer_size).started();
    let mut producer: Option<Producer<I>> = producer;
    std::iter::from_fn(move || {
        if let Some(mut running) = producer.take() {
            if running.step() {
                producer = Some(running);
            } else {
                running.finish();
            }
        }
        match readahead.next() {
            Ok(item) => item,
            Err(failure) => panic!("readahead {}", failure.message()),
        }
    })
}

fn profile_egress<I: Iterator>(iter: I) -> impl Iterator<Item = I::Item> {
    let profiler = TotalTimeProfiler::periodically_millis(10_000, || {});
    let mut egress = ProfileEgress::new(iter, profiler);
    std::iter::from_fn(move || egress.next())
}

fn profile_ingress<I: Iterator>(iter: I) -> impl Iterator<Item = I::Item> {
    let profiler = TotalTimeProfiler::periodically_millis(10_000, || {});
    let mut ingress = ProfileIngress::new(iter, profiler);
    std::iter::from_fn(move || ingress.next())
}

fn prop_map_vs_map_parallel(v: Vec<usize>, threads: usize, max_in_flight: usize) -> bool {
    let m: Vec<_> = v.clone().into_iter().map(|x| x / 2).collect();
    let (threads, window) = (Some(threads % 32), Some(max_in_flight % 128));
    let mp: Vec<_> = parallel_map(v.clone().into_iter(), threads, window, |x| x / 2).collect();

    m == mp
}

fn prop_map_vs_map_parallel_double(v: Vec<usize>, threads: usize, max_in_flight: usize) -> bool {
    let m: Vec<_> = v.clone().into_iter().map(|x| x / 2).collect();
    let (threads, window) = (Some(threads % 32), Some(max_in_flight % 128));
    let first = parallel_map(v.clone().into_iter(), threads, window, |x| x / 2);
    let mp: Vec<_> = parallel_map(first, threads, window, |x| x).collect();

    m == mp
}

fn prop_map_vs_map_parallel_scoped_double(
    v: Vec<usize>,
    threads: usize,
    max_in_flight: usize,
) -> bool {
    let m: Vec<usize> = v.iter().map(|x| x / 2).collect();
    let first = parallel_map(v.iter(), Some(threads % 32), None, |x| x / 2);
    let mp: Vec<usize> = parallel_map(first, None, Some(max_in_flight % 128), |x| x).collect();

    m == mp
}

fn prop_map_vs_map_parallel_with_readahead(v: Vec<usize>, threads: usize) -> bool {
    let m: Vec<_> = v.clone().into_iter().map(|x| x / 2).collect();
    let a = parallel_map(v.clone().into_iter(), Some(threads % 32), None, |x| x / 2);
    let b = parallel_map(readahead(a, 0), Some(threads % 32), None, |x| x);
    let mp: Vec<_> = parallel_map(readahead(b, 0), Some(threads % 32), None, |x| x).collect();

    m == mp
}

fn prop_map_vs_map_parallel_scoped_with_readahead(
    v: Vec<usize>,
    threads: usize,
    max_in_flight: usize,
) -> bool {
    let m: Vec<usize> = v.iter().map(|x| x / 2).collect();
    let a = readahead(parallel_map(v.iter(), Some(threads % 32), None, |x| x / 2), 0);
    let b = readahead(parallel_map(a, None, Some(max_in_flight % 128), |x| x), 0);
    let c = readahead(parallel_map(b, None, None, |x| x), 0);
    let mp: Vec<usize> = parallel_map(c, Some(threads % 32), None, |x| x).collect();

    m == mp
}

fn prop_check_profile_compiles(v: Vec<usize>) -> bool {
    let m: Vec<usize> = v.iter().map(|x| x / 2).collect();
    let a = profile_ingress(profile_egress(parallel_map(v.iter(), None, None, |x| x / 2)));
    let b = readahead(parallel_map(readahead(a, 0), None, None, |x| x), 0);
    let c = parallel_map(profile_ingress(profile_egress(b)), None, None, |x| x);
    let mp: Vec<usize> = parallel_map(readahead(c, 0), None, None, |x| x).collect();

    m == mp
}

fn prop_iter_vs_readhead(v: Vec<usize>, out: usize) -> bool {
    let m: Vec<_> = v.clone().into_iter().map(|x| x / 2).collect();
    let mp: Vec<_> = readahead(v.clone().into_iter(), out % 32).map(|x| x / 2).collect();

    m == mp
}

fn prop_iter_vs_readhead_scoped(v: Vec<usize>, out: usize) -> bool {
    let m: Vec<_> = v.iter().map(|x| x / 2).collect();
    let mp: Vec<_> = readahead(v.iter(), out % 32).map(|x| x / 2).collect();

    m == mp
}

fn prop_filter_vs_parallel_filter(v: Vec<usize>) -> bool {
    let m: Vec<_> = v.clone().into_iter().filter(|x| x % 2 == 0).collect();
    let mp: Vec<_> = parallel_filter(v.clone().into_iter(), |x| x % 2 == 0).collect();

    m == mp
}

fn prop_filter_vs_parallel_filter_scoped(v: Vec<usize>) -> bool {
    let m: Vec<_> = v.iter().filter(|x| *x % 2 == 0).collect();
    let mp: Vec<_> = parallel_filter(v.iter(), |x| *x % 2 == 0).collect();

    m == mp
}

#[test]
fn map_vs_map_parallel() {
    QuickCheck::new().quickcheck(prop_map_vs_map_parallel as fn(Vec<usize>, usize, usize) -> bool);
}

#[test]
fn map_vs_map_parallel_double() {
    QuickCheck::new()
        .quickcheck(prop_map_vs_map_parallel_double as fn(Vec<usize>, usize, usize) -> bool);
}

#[test]
fn map_vs_map_parallel_scoped_double() {
    QuickCheck::new()
        .quickcheck(prop_map_vs_map_parallel_scoped_double as fn(Vec<usize>, usize, usize) -> bool);
}

#[test]
fn map_vs_map_parallel_with_readahead() {
    QuickCheck::new()
        .quickcheck(prop_map_vs_map_parallel_with_readahead as fn(Vec<usize>, usize) -> bool);
}

#[test]
fn map_vs_map_parallel_scoped_with_readahead() {
    QuickCheck::new().quickcheck(
        prop_map_vs_map_parallel_scoped_with_readahead as fn(Vec<usize>, usize, usize) -> bool,
    );
}

#[test]
fn check_profile_compiles() {
    QuickCheck::new().quickcheck(prop_check_profile_compiles as fn(Vec<usize>) -> bool);
}

#[test]
fn iter_vs_readhead() {
    QuickCheck::new().quickcheck(prop_iter_vs_readhead as fn(Vec<usize>, usize) -> bool);
}

#[test]
fn iter_vs_readhead_scoped() {
    QuickCheck::new().quickcheck(prop_iter_vs_readhead_scoped as fn(Vec<usize>, usize) -> bool);
}

#[test]
fn filter_vs_parallel_filter() {
    QuickCheck::new().quickcheck(prop_filter_vs_parallel_filter as fn(Vec<usize>) -> bool);
}

#[test]
fn filter_vs_parallel_filter_scoped() {
    QuickCheck::new().quickcheck(prop_filter_vs_parallel_filter_scoped as fn(Vec<usize>) -> bool);
}
