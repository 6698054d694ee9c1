use amadeus_core::data::DataMap;
use amadeus_core::dist_iter::collect::PushReducer;
use amadeus_core::dist_iter::partitions::Partitions;
use amadeus_core::dist_iter::{Consumer, ConsumerAsync, DistributedIterator, Poll, ReduceSink, Reducer};
use amadeus_core::util::{
    try_type_coerce, type_coerce, DistParStream, ImplDistributedStream, IoError,
    ParallelStream, ResultExpand, ResultExpandIter, Wrapper,
};
use amadeus_core::dist_iter::next_task_after_hint;
use std::collections::hash_map::DefaultHasher;
use std::collections::HashMap;
use std::hash::{Hash, Hasher};

#[test]
fn result_expand_iter_hands_out_the_items() {
    let mut it: ResultExpandIter<std::vec::IntoIter<u8>, char> =
        ResultExpandIter::new(Ok(vec![1, 2].into_iter()));
    assert_eq!(it.next(), Some(Ok(1)));
    assert_eq!(it.next(), Some(Ok(2)));
    assert_eq!(it.next(), None);
    assert_eq!(it.next(), None);
}

#[test]
fn result_expand_iter_hands_out_the_failure_once() {
    let mut it: ResultExpandIter<std::vec::IntoIter<u8>, char> = ResultExpandIter::new(Err('e'));
    assert!(matches!(it, ResultExpandIter::Failure(Some('e'))));
    assert_eq!(it.next(), Some(Err('e')));
    assert!(matches!(it, ResultExpandIter::Failure(None)));
    assert_eq!(it.next(), None);
    assert_eq!(it.next(), None);
}

#[test]
fn result_expand_into_iter() {
    let mut it = ResultExpand::<Vec<u8>, char>(Ok(vec![3])).into_iter();
    assert_eq!(it.next(), Some(Ok(3)));
    assert_eq!(it.next(), None);
    let mut it = ResultExpand::<Vec<u8>, char>(Err('x')).into_iter();
    assert_eq!(it.next(), Some(Err('x')));
    assert_eq!(it.next(), None);
}

#[test]
fn result_expand_at_once() {
    assert_eq!(
        ResultExpand::<Vec<u8>, char>(Ok(vec![1, 2, 3])).expand(),
        vec![Ok(1), Ok(2), Ok(3)]
    );
    assert_eq!(ResultExpand::<Vec<u8>, char>(Ok(vec![])).expand(), vec![]);
    assert_eq!(ResultExpand::<Vec<u8>, char>(Err('e')).expand(), vec![Err('e')]);
}

#[test]
fn io_errors_are_equal_when_they_read_the_same() {
    let a = IoError::new(String::from("not found"));
    let b = IoError::new(String::from("not found"));
    let c = IoError::new(String::from("denied"));
    assert!(a == b);
    assert!(a != c);
    assert!(a.clone() == a);
    assert_eq!(a.message(), "not found");
    assert_eq!(c.to_string(), "denied");
}

#[test]
fn wrapper_keeps_the_value() {
    let w = Wrapper::new(vec![1, 2]);
    assert_eq!(w.into_inner(), vec![1, 2]);
}

#[test]
fn coercion_between_a_type_and_itself() {
    assert_eq!(try_type_coerce::<u8, u8>(5), Some(5));
    assert_eq!(type_coerce::<String, String>(String::from("x")), "x");
}

#[test]
fn debug_carries_the_value() {
    let d = amadeus_core::util::Debug(5u8);
    assert_eq!(d.0, 5);
}

#[test]
fn a_distributed_pipeline_as_a_pipeline_of_one_process() {
    let mut p = DistParStream::new(Partitions::new(vec![vec![1u8, 2], vec![3]]));
    assert_eq!(p.size_hint(), (3, Some(3)));
    let task = p.next_task().unwrap();
    assert_eq!(p.size_hint(), (1, Some(1)));
    let (poll, sink) = task.into_async().poll_run(ReduceSink::new(PushReducer::<u8, Vec<u8>>::default()));
    assert!(matches!(poll, Poll::Ready(true)));
    assert_eq!(sink.into_inner().ret(), vec![1, 2]);
    assert!(p.next_task().is_some());
    assert!(p.next_task().is_none());
}

#[test]
fn the_placeholder_pipeline_draws_nothing() {
    let mut p: ImplDistributedStream<u8> = ImplDistributedStream::new(Partitions::new(vec![vec![1u8]]));
    assert_eq!(DistributedIterator::size_hint(&p), (0, Some(0)));
    assert!(DistributedIterator::next_task(&mut p).is_none());
    assert_eq!(ParallelStream::size_hint(&p), (0, Some(0)));
    assert!(ParallelStream::next_task(&mut p).is_none());
}

#[test]
fn data_map_get_and_iter() {
    let mut inner: HashMap<String, u8> = HashMap::new();
    inner.insert(String::from("a"), 1);
    inner.insert(String::from("b"), 2);
    let map = DataMap::from(inner);
    assert_eq!(map.get("a"), Some(&1));
    assert_eq!(map.get("c"), None);
    let mut entries: Vec<(String, u8)> = map.iter().map(|(k, v)| (k.clone(), *v)).collect();
    entries.sort();
    assert_eq!(entries, vec![(String::from("a"), 1), (String::from("b"), 2)]);
    assert_eq!(map.into_inner().len(), 2);
}

fn map_of(entries: Vec<(u8, char)>) -> DataMap<u8, char> {
    let mut inner: HashMap<u8, char> = HashMap::new();
    for (k, v) in entries {
        inner.insert(k, v);
    }
    DataMap::from(inner)
}

#[test]
fn data_maps_are_compared_entry_by_entry() {
    assert!(map_of(vec![(1, 'a'), (2, 'b')]) == map_of(vec![(2, 'b'), (1, 'a')]));
    assert!(map_of(vec![]) == map_of(vec![]));
    assert!(map_of(vec![(1, 'a'), (2, 'b')]) != map_of(vec![(1, 'a'), (2, 'c')]));
    assert!(map_of(vec![(1, 'a'), (2, 'b')]) != map_of(vec![(1, 'a'), (3, 'b')]));
    assert!(map_of(vec![(1, 'a')]) != map_of(vec![(1, 'a'), (2, 'b')]));
    assert!(map_of(vec![(1, 'a'), (2, 'b')]) != map_of(vec![(1, 'a')]));
}

#[test]
fn wrappers_hash_alike() {
    let mut one = DefaultHasher::new();
    Wrapper::new(1u8).hash(&mut one);
    let mut two = DefaultHasher::new();
    Wrapper::new(2u8).hash(&mut two);
    let untouched = DefaultHasher::new();
    assert_eq!(one.finish(), two.finish());
    assert_eq!(one.finish(), untouched.finish());
}

#[test]
fn the_hint_is_read_before_the_draw() {
    let mut pipeline = Partitions::new(vec![vec![1u8, 2], vec![3]]);
    let (hint, task) = next_task_after_hint(&mut pipeline);
    assert_eq!(hint, (3, Some(3)));
    let (_, sink) = task
        .unwrap()
        .into_async()
        .poll_run(ReduceSink::new(PushReducer::<u8, Vec<u8>>::default()));
    assert_eq!(sink.into_inner().ret(), vec![1, 2]);
    let (hint, task) = next_task_after_hint(&mut pipeline);
    assert_eq!(hint, (1, Some(1)));
    assert!(task.is_some());
    let (hint, task) = next_task_after_hint(&mut pipeline);
    assert_eq!(hint, (0, Some(0)));
    assert!(task.is_none());
}
