use amadeus_core::dist_iter::collect::{
    ExtendReducer, FromDistributedIterator, PushReducer, ResultReducer,
};
use amadeus_core::dist_iter::local::collect_ready;
use amadeus_core::dist_iter::partitions::{PartitionTask, Partitions};
use amadeus_core::dist_iter::update::{Update, UpdateFn};
use amadeus_core::dist_iter::{
    poll_reduce, Consumer, ConsumerAsync, DistributedIterator, Poll, ReduceFactory, ReduceSink,
    Reducer,
};
use std::collections::HashMap;

/// Runs one task into a fresh per-task reducer of the target `C` and hands
/// out what the reducer returns.
fn run_task<T, C: FromDistributedIterator<T>>(
    items: Vec<T>,
) -> <C::ReduceA as Reducer>::Output {
    let (factory, _) = C::reducers();
    let reducer = factory.make();
    let mut running = PartitionTask::new(items).into_async();
    let (poll, reducer) = poll_reduce(&mut running, reducer);
    assert!(matches!(poll, Poll::Ready(_)));
    reducer.ret()
}

/// Folds per-task outputs, in the order given, with the cross-task reducer
/// of the target `C`.
fn merge<T, C: FromDistributedIterator<T>>(outs: Vec<<C::ReduceA as Reducer>::Output>) -> C {
    let (_, mut b) = C::reducers();
    for out in outs {
        if !b.push(out) {
            break;
        }
    }
    b.ret()
}

fn position(all: &[u32], x: u32) -> usize {
    all.iter().position(|y| *y == x).unwrap()
}

#[test]
fn three_tasks_into_a_vector_in_drawing_order() {
    let pipeline = Partitions::new(vec![vec![1u32, 2], vec![3], vec![4, 5, 6]]);
    let all: Option<Vec<u32>> = collect_ready(pipeline);
    assert_eq!(all, Some(vec![1, 2, 3, 4, 5, 6]));
}

#[test]
fn three_tasks_into_a_vector_in_any_arrival_order() {
    let tasks: Vec<Vec<u32>> = vec![vec![1, 2], vec![3], vec![4, 5, 6]];
    let orders: Vec<Vec<usize>> = vec![
        vec![0, 1, 2],
        vec![0, 2, 1],
        vec![1, 0, 2],
        vec![1, 2, 0],
        vec![2, 0, 1],
        vec![2, 1, 0],
    ];
    for order in orders {
        let mut outs = Vec::new();
        for i in order.iter() {
            outs.push(run_task::<u32, Vec<u32>>(tasks[*i].clone()));
        }
        let all: Vec<u32> = merge::<u32, Vec<u32>>(outs);
        let mut sorted = all.clone();
        sorted.sort();
        assert_eq!(sorted, vec![1, 2, 3, 4, 5, 6]);
        assert_eq!(position(&all, 2), position(&all, 1) + 1);
        assert_eq!(position(&all, 5), position(&all, 4) + 1);
        assert_eq!(position(&all, 6), position(&all, 5) + 1);
    }
}

#[test]
fn arrival_order_decides_the_order_of_the_blocks() {
    let a = run_task::<u32, Vec<u32>>(vec![1, 2]);
    let b = run_task::<u32, Vec<u32>>(vec![3]);
    let c = run_task::<u32, Vec<u32>>(vec![4, 5, 6]);
    let all: Vec<u32> = merge::<u32, Vec<u32>>(vec![c, a, b]);
    assert_eq!(all, vec![4, 5, 6, 1, 2, 3]);
}

#[test]
fn one_decode_failure_is_the_result_in_any_arrival_order() {
    let failure = String::from("expected value at line 1 column 1");
    let tasks: Vec<Vec<Result<u32, String>>> = vec![
        vec![Ok(1), Ok(2)],
        vec![Ok(3), Err(failure.clone()), Ok(4)],
        vec![Ok(5)],
    ];
    let orders: Vec<Vec<usize>> = vec![
        vec![0, 1, 2],
        vec![0, 2, 1],
        vec![1, 0, 2],
        vec![1, 2, 0],
        vec![2, 0, 1],
        vec![2, 1, 0],
    ];
    for order in orders {
        let mut outs = Vec::new();
        for i in order.iter() {
            outs.push(run_task::<Result<u32, String>, Result<Vec<u32>, String>>(
                tasks[*i].clone(),
            ));
        }
        let all: Result<Vec<u32>, String> =
            merge::<Result<u32, String>, Result<Vec<u32>, String>>(outs);
        assert_eq!(all, Err(failure.clone()));
    }
}

#[test]
fn one_decode_failure_is_the_result_of_the_local_job() {
    let failure = String::from("EOF while parsing a value");
    let pipeline = Partitions::new(vec![
        vec![Ok(1u32), Ok(2)],
        vec![Ok(3), Err(failure.clone()), Ok(4)],
        vec![Ok(5)],
    ]);
    let all: Option<Result<Vec<u32>, String>> = collect_ready(pipeline);
    assert_eq!(all, Some(Err(failure)));
}

#[test]
fn the_first_failure_to_arrive_wins() {
    let first = run_task::<Result<u32, String>, Result<Vec<u32>, String>>(vec![
        Ok(1),
        Err(String::from("first")),
        Err(String::from("later in the same task")),
    ]);
    let second = run_task::<Result<u32, String>, Result<Vec<u32>, String>>(vec![Err(
        String::from("second"),
    )]);
    assert_eq!(first, Err(String::from("first")));
    let all: Result<Vec<u32>, String> =
        merge::<Result<u32, String>, Result<Vec<u32>, String>>(vec![second, first]);
    assert_eq!(all, Err(String::from("second")));
}

#[derive(Clone)]
struct Times(u32);

impl UpdateFn<u32> for Times {
    fn updated(&self, item: u32) -> u32 {
        item * self.0
    }

    fn call(&self, item: &mut u32) {
        *item *= self.0;
    }

    fn replicate(&self) -> Self {
        Times(self.0)
    }
}

#[test]
fn multiply_by_ten_reaches_the_sink_in_order() {
    let mut pipeline = Update::new(Partitions::new(vec![vec![1u32, 2, 3]]), Times(10));
    let task = pipeline.next_task().unwrap();
    assert!(pipeline.next_task().is_none());
    let mut running = task.into_async();
    let sink = ReduceSink::new(PushReducer::<u32, Vec<u32>>::default());
    let (poll, sink) = running.poll_run(sink);
    assert!(matches!(poll, Poll::Ready(true)));
    assert_eq!(sink.into_inner().ret(), vec![10, 20, 30]);
}

#[test]
fn multiply_by_ten_then_collect() {
    let pipeline = Update::new(Partitions::new(vec![vec![1u32, 2], vec![3]]), Times(10));
    let all: Option<Vec<u32>> = collect_ready(pipeline);
    assert_eq!(all, Some(vec![10, 20, 30]));
}

#[test]
fn last_write_wins_between_tasks() {
    let one = run_task::<(String, i32), HashMap<String, i32>>(vec![(String::from("a"), 1)]);
    let two = run_task::<(String, i32), HashMap<String, i32>>(vec![(String::from("a"), 2)]);
    let merged: HashMap<String, i32> =
        merge::<(String, i32), HashMap<String, i32>>(vec![one, two]);
    assert_eq!(merged.get("a"), Some(&2));
    assert_eq!(merged.len(), 1);

    let one = run_task::<(String, i32), HashMap<String, i32>>(vec![(String::from("a"), 1)]);
    let two = run_task::<(String, i32), HashMap<String, i32>>(vec![(String::from("a"), 2)]);
    let merged: HashMap<String, i32> =
        merge::<(String, i32), HashMap<String, i32>>(vec![two, one]);
    assert_eq!(merged.get("a"), Some(&1));
}

#[test]
fn last_write_wins_within_a_task() {
    let out = run_task::<(u64, u8), HashMap<u64, u8>>(vec![(7, 1), (8, 2), (7, 3)]);
    assert_eq!(out.get(&7), Some(&3));
    assert_eq!(out.get(&8), Some(&2));
    assert_eq!(out.len(), 2);
}

#[test]
fn a_halted_reducer_ignores_what_follows() {
    let mut reducer: ResultReducer<PushReducer<u32, Vec<u32>>, String> =
        ResultReducer::default();
    assert!(reducer.push(Ok(1)));
    assert!(!reducer.push(Err(String::from("first"))));
    assert!(!reducer.push(Ok(2)));
    assert!(!reducer.push(Err(String::from("second"))));
    assert_eq!(reducer.ret(), Err(String::from("first")));
}

#[test]
fn extend_reducer_concatenates() {
    let mut b: ExtendReducer<Vec<u8>> = ExtendReducer::default();
    assert!(b.push(vec![1, 2]));
    assert!(b.push(vec![]));
    assert!(b.push(vec![3]));
    assert_eq!(b.ret(), vec![1, 2, 3]);
}
