use pariter::{
    DropIndicator, FilterWorker, ParallelFilterBuilder, ParallelMapBuilder, Poll, Producer,
    Readahead, Worker,
};

/// An ordered parallel map as an iterator that does the workers' part itself:
/// whenever the engine has nothing to hand over, the workers take turns on
/// what waits in the queue.
fn map_stage<I, O, F>(
    iter: I,
    threads: usize,
    window: Option<usize>,
    f: F,
) -> impl Iterator<Item = O>
where
    I: Iterator,
    F: FnMut(I::Item) -> O + Clone,
{
    let mut builder = ParallelMapBuilder::new(iter).threads(threads);
    if let Some(window) = window {
        builder = builder.buffer_size(window);
    }
    let mut engine = builder.with_common::<O>();
    let (queue, answers) = engine.ensure_started().expect("the first start");
    let mut workers: Vec<Worker<I::Item, O, F>> = (0..engine.num_threads())
        .map(|_| {
            Worker::new(
                f.clone(),
                queue.clone(),
                answers.clone(),
                DropIndicator::new(engine.share_flag()),
            )
        })
        .collect();
    drop(answers);
    let mut turn = 0;
    std::iter::from_fn(move || loop {
        match engine.poll() {
            Poll::Item(item) => return Some(item),
            Poll::End => return None,
            Poll::Pending => {
                while !queue.is_empty() {
                    let n = workers.len();
                    assert!(workers[turn % n].step());
                    turn += 1;
                }
            }
            Poll::Failed(failure) => panic!("parallel_map {}", failure.message()),
        }
    })
}

/// An ordered parallel filter as an iterator, in the same way. The filter
/// keeps no handle on its queue, so a worker is asked whenever two attempts
/// in a row came to nothing: by then every answer has been used up.
fn filter_stage<I, F>(iter: I, threads: usize, f: F) -> impl Iterator<Item = I::Item>
where
    I: Iterator,
    F: FnMut(&I::Item) -> bool + Clone,
{
    let (mut filter, work) =
        ParallelFilterBuilder::new(iter).threads(threads).buffer_size(1).with(f);
    let mut workers: Vec<FilterWorker<I::Item, F>> = filter.workers(work);
    let mut idle = 0;
    std::iter::from_fn(move || loop {
        match filter.poll() {
            Poll::Item(item) => {
                idle = 0;
                return Some(item);
            }
            Poll::End => return None,
            Poll::Pending => {
                idle += 1;
                if idle >= 2 {
                    assert!(workers[0].step());
                    idle = 0;
                }
            }
            Poll::Failed(failure) => panic!("parallel_filter {}", failure.message()),
        }
    })
}

/// A readahead as an iterator that does the producer's part itself, one item
/// ahead of the consumer.
fn readahead_stage<I: Iterator>(iter: I, buffer_size: usize) -> impl Iterator<Item = I::Item> {
    let (mut readahead, producer) = Readahead::new(iter, buffer_size).started();
    let mut producer: Option<Producer<I>> = producer;
    std::iter::from_fn(move || {
        if let Some(mut running) = producer.take() {
            if running.step() {
                producer = Some(running);
            } else {
                running.finish();
            }
        }
        match readahead.next() {
            Ok(item) => item,
            Err(failure) => panic!("readahead {}", failure.message()),
        }
    })
}

#[test]
fn two_maps_in_a_row_are_the_two_functions_in_a_row() {
    let v: Vec<usize> = vec![9, 8, 7, 6, 5, 4, 3, 2, 1, 0, 10, 20, 30];
    for threads in [1, 2, 7] {
        for window in [None, Some(0), Some(1), Some(5)] {
            let expected: Vec<String> =
                v.iter().map(|x| x / 2).map(|x| format!("<{}>", x)).collect();
            let first = map_stage(v.clone().into_iter(), threads, window, |x: usize| x / 2);
            let second = map_stage(first, threads, window, |x: usize| format!("<{}>", x));
            assert_eq!(second.collect::<Vec<_>>(), expected);
        }
    }
}

#[test]
fn a_readahead_between_two_stages_is_not_noticed() {
    let v: Vec<usize> = (0..22).collect();
    let expected: Vec<usize> =
        v.iter().map(|x| x / 2).filter(|x| x % 2 == 0).map(|x| x + 1).collect();
    for buffer_size in [0, 1, 3, 64] {
        let halved = map_stage(v.clone().into_iter(), 3, None, |x: usize| x / 2);
        let even = filter_stage(halved, 2, |x: &usize| x % 2 == 0);
        let plain = map_stage(even, 4, Some(2), |x: usize| x + 1);
        assert_eq!(plain.collect::<Vec<_>>(), expected);

        let first = readahead_stage(v.clone().into_iter(), buffer_size);
        let halved = map_stage(first, 3, None, |x: usize| x / 2);
        let second = readahead_stage(halved, buffer_size);
        let even = filter_stage(second, 2, |x: &usize| x % 2 == 0);
        let third = readahead_stage(even, buffer_size);
        let plus_one = map_stage(third, 4, Some(2), |x: usize| x + 1);
        let last = readahead_stage(plus_one, buffer_size);
        assert_eq!(last.collect::<Vec<_>>(), expected);
    }
}

#[test]
fn twenty_two_items_pass_a_readahead_without_buffer_unchanged() {
    let input: Vec<usize> = (0..22).collect();
    let relayed = readahead_stage(input.clone().into_iter(), 0);
    let slow = map_stage(relayed, 2, None, |x: usize| {
        // a transform that takes its time
        let mut spin = 0u64;
        for k in 0..1_000u64 {
            spin = spin.wrapping_add(k * (x as u64 + 1));
        }
        assert!(spin > 0);
        x
    });
    let again = readahead_stage(slow, 0);
    assert_eq!(again.collect::<Vec<_>>(), input);
}

#[test]
fn an_empty_input_gives_an_empty_output_through_every_stage() {
    for threads in [1, 5] {
        for buffer in [0, 1, 8] {
            let none = Vec::<u32>::new();
            let out = readahead_stage(
                filter_stage(
                    map_stage(none.into_iter(), threads, Some(buffer), |x: u32| x + 1),
                    threads,
                    |_: &u32| true,
                ),
                buffer,
            );
            assert_eq!(out.count(), 0);
        }
    }
}

#[test]
fn stages_work_on_borrowed_items() {
    let v: Vec<String> = vec!["a".into(), "bb".into(), "ccc".into()];
    let lengths = map_stage(v.iter(), 2, None, |s: &String| s.len());
    let long = filter_stage(readahead_stage(lengths, 0), 2, |n: &usize| *n > 1);
    assert_eq!(long.collect::<Vec<_>>(), vec![2, 3]);
    assert_eq!(v.len(), 3);
}
