use amadeus_core::dist_iter::collect::{OptionReducer, PushReducer};
use amadeus_core::dist_iter::identity::Identity;
use amadeus_core::dist_iter::partitions::{reversed, PartitionTask, Partitions};
use amadeus_core::dist_iter::update::{Update, UpdateFn, Updating};
use amadeus_core::dist_iter::{
    poll_reduce, Consumer, ConsumerAsync, ConsumerMulti, ConsumerMultiAsync, DistributedIterator,
    DistributedIteratorMulti, Poll, ReduceSink, Reducer,
};
use amadeus_core::sink::{ItemMap, Sink, SinkMap};

struct AddOne;

impl UpdateFn<u8> for AddOne {
    fn updated(&self, item: u8) -> u8 {
        item.wrapping_add(1)
    }

    fn call(&self, item: &mut u8) {
        *item = item.wrapping_add(1);
    }

    fn replicate(&self) -> Self {
        AddOne
    }
}

struct Halve;

impl ItemMap<u8> for Halve {
    type Output = Option<u8>;

    fn mapped(&self, item: u8) -> Option<u8> {
        if item % 2 == 0 {
            Some(item / 2)
        } else {
            None
        }
    }

    fn map(&self, item: u8) -> Option<u8> {
        if item % 2 == 0 {
            Some(item / 2)
        } else {
            None
        }
    }
}

fn vec_sink() -> ReduceSink<PushReducer<u8, Vec<u8>>> {
    ReduceSink::new(PushReducer::default())
}

fn stopping_sink() -> ReduceSink<OptionReducer<PushReducer<u8, Vec<u8>>>> {
    ReduceSink::new(OptionReducer::default())
}

#[test]
fn reversed_turns_a_vector_round() {
    assert_eq!(reversed(vec![1, 2, 3]), vec![3, 2, 1]);
    assert_eq!(reversed(Vec::<u8>::new()), Vec::<u8>::new());
}

#[test]
fn size_hint_counts_the_items_left() {
    let mut pipeline = Partitions::new(vec![vec![1u8, 2], vec![], vec![3]]);
    assert_eq!(pipeline.size_hint(), (3, Some(3)));
    let _ = pipeline.next_task();
    assert_eq!(pipeline.size_hint(), (1, Some(1)));
    let _ = pipeline.next_task();
    let _ = pipeline.next_task();
    assert_eq!(pipeline.size_hint(), (0, Some(0)));
}

#[test]
fn size_hint_does_not_change_the_next_draw() {
    let mut asked = Partitions::new(vec![vec![1u8, 2], vec![3]]);
    let mut unasked = Partitions::new(vec![vec![1u8, 2], vec![3]]);
    let _ = asked.size_hint();
    let _ = asked.size_hint();
    loop {
        let a = asked.next_task();
        let b = unasked.next_task();
        match (a, b) {
            (Some(a), Some(b)) => {
                let (_, sa) = a.into_async().poll_run(vec_sink());
                let (_, sb) = b.into_async().poll_run(vec_sink());
                assert_eq!(sa.into_inner().ret(), sb.into_inner().ret());
            }
            (None, None) => break,
            _ => panic!("the two pipelines draw differently"),
        }
        let _ = asked.size_hint();
    }
}

#[test]
fn update_passes_the_hint_through() {
    let pipeline = Update::new(Partitions::new(vec![vec![1u8, 2], vec![3]]), AddOne);
    assert_eq!(pipeline.size_hint(), (3, Some(3)));
}

#[test]
fn tasks_are_drawn_once_each_and_in_order() {
    let mut pipeline = Partitions::new(vec![vec![1u8], vec![2, 3]]);
    let first = pipeline.next_task().unwrap();
    let second = pipeline.next_task().unwrap();
    assert!(pipeline.next_task().is_none());
    assert!(pipeline.next_task().is_none());
    let (_, sink) = second.into_async().poll_run(vec_sink());
    assert_eq!(sink.into_inner().ret(), vec![2, 3]);
    let (_, sink) = first.into_async().poll_run(vec_sink());
    assert_eq!(sink.into_inner().ret(), vec![1]);
}

#[test]
fn no_offer_follows_a_stop() {
    let mut running =
        PartitionTask::new(vec![Some(1u8), Some(2), None, Some(3), Some(4)]).into_async();
    let (poll, sink) = running.poll_run(stopping_sink());
    assert!(matches!(poll, Poll::Ready(false)));
    assert_eq!(sink.into_inner().ret(), None);

    // What the stopped run left is still there: it was never offered.
    let (poll, sink) = running.poll_run(stopping_sink());
    assert!(matches!(poll, Poll::Ready(true)));
    assert_eq!(sink.into_inner().ret(), Some(vec![3, 4]));
}

#[test]
fn a_run_without_items_wants_more() {
    let mut running = PartitionTask::new(Vec::<u8>::new()).into_async();
    let (poll, sink) = running.poll_run(vec_sink());
    assert!(matches!(poll, Poll::Ready(true)));
    assert_eq!(sink.into_inner().ret(), Vec::<u8>::new());
}

#[test]
fn poll_reduce_lends_the_reducer() {
    let mut running = PartitionTask::new(vec![5u8, 6]).into_async();
    let (poll, reducer) = poll_reduce(&mut running, PushReducer::<u8, Vec<u8>>::default());
    assert!(matches!(poll, Poll::Ready(true)));
    assert_eq!(reducer.ret(), vec![5, 6]);
}

#[test]
fn sink_map_transforms_then_forwards() {
    let mut sink = SinkMap::new(stopping_sink(), Halve);
    assert!(sink.offer(4));
    assert!(sink.offer(10));
    assert!(!sink.offer(3));
    assert_eq!(sink.into_inner().into_inner().ret(), None);

    let mut sink = SinkMap::new(stopping_sink(), Halve);
    assert!(sink.offer(4));
    assert!(sink.offer(10));
    assert_eq!(sink.into_inner().into_inner().ret(), Some(vec![2, 5]));
}

#[test]
fn updating_applies_the_transform() {
    let f = AddOne;
    assert_eq!(Updating(&f).map(41), 42);
    assert_eq!(Updating(&f).map(255), 0);
}

#[test]
fn update_stops_when_the_sink_stops() {
    struct Drop3;
    impl UpdateFn<Option<u8>> for Drop3 {
        fn updated(&self, item: Option<u8>) -> Option<u8> {
            match item {
                Some(3) => None,
                other => other,
            }
        }

        fn call(&self, item: &mut Option<u8>) {
            if *item == Some(3) {
                *item = None;
            }
        }

        fn replicate(&self) -> Self {
            Drop3
        }
    }
    let mut pipeline = Update::new(
        Partitions::new(vec![vec![Some(1u8), Some(2), Some(3), Some(4)]]),
        Drop3,
    );
    let mut running = pipeline.next_task().unwrap().into_async();
    let (poll, sink) = running.poll_run(stopping_sink());
    assert!(matches!(poll, Poll::Ready(false)));
    assert_eq!(sink.into_inner().ret(), None);
    let (poll, sink) = running.poll_run(stopping_sink());
    assert!(matches!(poll, Poll::Ready(true)));
    assert_eq!(sink.into_inner().ret(), Some(vec![4]));
}

#[test]
fn identity_hands_the_source_value_on() {
    let task = <Identity as DistributedIteratorMulti<u8>>::task(&Identity);
    let mut running = <_ as ConsumerMulti<u8>>::into_async(task);
    let (poll, sink) = running.poll_run(Some(7u8), vec_sink());
    assert!(matches!(poll, Poll::Ready(true)));
    let (poll, sink) = running.poll_run(None, sink);
    assert!(matches!(poll, Poll::Ready(true)));
    let (poll, sink) = running.poll_run(Some(8u8), sink);
    assert!(matches!(poll, Poll::Ready(true)));
    assert_eq!(sink.into_inner().ret(), vec![7, 8]);
}

#[test]
fn update_over_a_multi_source_task() {
    let pipeline = Update::new(Identity, AddOne);
    let task = <Update<Identity, AddOne> as DistributedIteratorMulti<u8>>::task(&pipeline);
    let mut running = <_ as ConsumerMulti<u8>>::into_async(task);
    let (poll, sink) = ConsumerMultiAsync::<u8>::poll_run(&mut running, Some(1u8), vec_sink());
    assert!(matches!(poll, Poll::Ready(true)));
    let (poll, sink) = ConsumerMultiAsync::<u8>::poll_run(&mut running, Some(9u8), sink);
    assert!(matches!(poll, Poll::Ready(true)));
    assert_eq!(sink.into_inner().ret(), vec![2, 10]);
}

#[test]
fn a_multi_source_run_reports_the_stop() {
    let task = <Identity as DistributedIteratorMulti<Option<u8>>>::task(&Identity);
    let mut running = <_ as ConsumerMulti<Option<u8>>>::into_async(task);
    let (poll, sink) = running.poll_run(Some(Some(1u8)), stopping_sink());
    assert!(matches!(poll, Poll::Ready(true)));
    let (poll, sink) = running.poll_run(Some(None), sink);
    assert!(matches!(poll, Poll::Ready(false)));
    assert_eq!(sink.into_inner().ret(), None);
}

#[test]
fn a_drawn_task_carries_the_inner_task_and_the_transform() {
    let mut pipeline = Update::new(Partitions::new(vec![vec![1u8, 2], vec![3]]), AddOne);
    let _ = pipeline.size_hint();
    let task = pipeline.next_task().unwrap();
    let (inner, f) = task.into_parts();
    assert_eq!(f.updated(1), 2);
    let (_, sink) = inner.into_async().poll_run(vec_sink());
    assert_eq!(sink.into_inner().ret(), vec![1, 2]);
    let task = pipeline.next_task().unwrap();
    let (_, sink) = task.into_async().poll_run(vec_sink());
    assert_eq!(sink.into_inner().ret(), vec![4]);
    assert!(pipeline.next_task().is_none());
}
