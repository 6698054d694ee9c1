use amadeus_core::dist_iter::collect::{
    Collect, DefaultReduceFactory, ExtendReducer, FromDistributedIterator, IntoReducer,
    OptionReduceFactory, OptionReducer, PushReducer, ResultReduceFactory, ResultReducer,
};
use amadeus_core::dist_iter::containers::{ConvertInto, ExtendWith, Push};
use amadeus_core::dist_iter::targets::{Heap, List};
use amadeus_core::dist_iter::identity::Identity;
use amadeus_core::dist_iter::local::collect_ready;
use amadeus_core::dist_iter::partitions::Partitions;
use amadeus_core::dist_iter::{DistributedReducer, ReduceFactory, Reducer};
use std::collections::{BTreeMap, BTreeSet, HashMap, HashSet, VecDeque};
use std::marker::PhantomData;

#[test]
fn push_into_each_container() {
    let mut v: Vec<u8> = Vec::new();
    Push::push(&mut v, 1);
    Push::push(&mut v, 1);
    assert_eq!(v, vec![1, 1]);

    let mut hs: HashSet<u8> = HashSet::new();
    Push::push(&mut hs, 1);
    Push::push(&mut hs, 1);
    Push::push(&mut hs, 2);
    assert_eq!(hs.len(), 2);
    assert!(hs.contains(&1) && hs.contains(&2));

    let mut bs: BTreeSet<u8> = BTreeSet::new();
    Push::push(&mut bs, 3);
    Push::push(&mut bs, 1);
    Push::push(&mut bs, 3);
    assert_eq!(bs.into_iter().collect::<Vec<u8>>(), vec![1, 3]);

    let mut hm: HashMap<u8, char> = HashMap::new();
    Push::push(&mut hm, (1, 'a'));
    Push::push(&mut hm, (1, 'b'));
    assert_eq!(hm.get(&1), Some(&'b'));
    assert_eq!(hm.len(), 1);

    let mut bm: BTreeMap<u8, char> = BTreeMap::new();
    Push::push(&mut bm, (2, 'x'));
    Push::push(&mut bm, (1, 'y'));
    Push::push(&mut bm, (2, 'z'));
    assert_eq!(bm.into_iter().collect::<Vec<(u8, char)>>(), vec![(1, 'y'), (2, 'z')]);

    let mut unit = ();
    Push::push(&mut unit, ());
    assert_eq!(unit, ());
}

#[test]
fn push_into_a_string() {
    let mut s = String::from("ab");
    Push::push(&mut s, 'c');
    assert_eq!(s, "abc");
    Push::push(&mut s, String::from("de"));
    assert_eq!(s, "abcde");
    Push::push(&mut s, String::new());
    assert_eq!(s, "abcde");
}

#[test]
fn extend_each_container() {
    let mut v: Vec<u8> = vec![1];
    v.extend_with(vec![2, 3]);
    assert_eq!(v, vec![1, 2, 3]);

    let mut hs: HashSet<u8> = HashSet::new();
    hs.insert(1);
    let mut other: HashSet<u8> = HashSet::new();
    other.insert(1);
    other.insert(2);
    hs.extend_with(other);
    assert_eq!(hs.len(), 2);
    assert!(hs.contains(&1) && hs.contains(&2));

    let mut bs: BTreeSet<u8> = BTreeSet::new();
    bs.insert(5);
    let mut other: BTreeSet<u8> = BTreeSet::new();
    other.insert(4);
    bs.extend_with(other);
    assert_eq!(bs.into_iter().collect::<Vec<u8>>(), vec![4, 5]);

    let mut hm: HashMap<u8, char> = HashMap::new();
    hm.insert(1, 'a');
    hm.insert(2, 'b');
    let mut other: HashMap<u8, char> = HashMap::new();
    other.insert(2, 'c');
    other.insert(3, 'd');
    hm.extend_with(other);
    assert_eq!(hm.len(), 3);
    assert_eq!(hm.get(&1), Some(&'a'));
    assert_eq!(hm.get(&2), Some(&'c'));
    assert_eq!(hm.get(&3), Some(&'d'));

    let mut bm: BTreeMap<u8, char> = BTreeMap::new();
    bm.insert(1, 'a');
    let mut other: BTreeMap<u8, char> = BTreeMap::new();
    other.insert(1, 'z');
    bm.extend_with(other);
    assert_eq!(bm.get(&1), Some(&'z'));
    assert_eq!(bm.len(), 1);
}

#[test]
fn collect_into_a_deque() {
    let pipeline = Partitions::new(vec![vec![1u8, 2], vec![], vec![3]]);
    let all: Option<VecDeque<u8>> = collect_ready(pipeline);
    assert_eq!(all.unwrap().into_iter().collect::<Vec<u8>>(), vec![1, 2, 3]);
}

#[test]
fn collect_into_sets() {
    let pipeline = Partitions::new(vec![vec![3u32, 1], vec![1, 2], vec![3]]);
    let all: Option<HashSet<u32>> = collect_ready(pipeline);
    let mut expected = HashSet::new();
    expected.insert(1);
    expected.insert(2);
    expected.insert(3);
    assert_eq!(all, Some(expected));

    let pipeline = Partitions::new(vec![vec![3u32, 1], vec![1, 2], vec![3]]);
    let all: Option<BTreeSet<u32>> = collect_ready(pipeline);
    assert_eq!(all.unwrap().into_iter().collect::<Vec<u32>>(), vec![1, 2, 3]);
}

#[test]
fn sets_do_not_depend_on_the_arrival_order() {
    let forward = Partitions::new(vec![vec![1u8, 2], vec![2, 3]]);
    let backward = Partitions::new(vec![vec![2u8, 3], vec![1, 2]]);
    let a: Option<HashSet<u8>> = collect_ready(forward);
    let b: Option<HashSet<u8>> = collect_ready(backward);
    assert_eq!(a, b);
}

#[test]
fn collect_into_maps() {
    let pipeline = Partitions::new(vec![vec![(1u8, 'a'), (2, 'b')], vec![(1, 'c')]]);
    let all: Option<HashMap<u8, char>> = collect_ready(pipeline);
    let all = all.unwrap();
    assert_eq!(all.get(&1), Some(&'c'));
    assert_eq!(all.get(&2), Some(&'b'));
    assert_eq!(all.len(), 2);

    let pipeline = Partitions::new(vec![vec![(1u8, 'c')], vec![(1, 'a'), (2, 'b')]]);
    let all: Option<BTreeMap<u8, char>> = collect_ready(pipeline);
    assert_eq!(
        all.unwrap().into_iter().collect::<Vec<(u8, char)>>(),
        vec![(1, 'a'), (2, 'b')]
    );
}

#[test]
fn collect_into_strings() {
    let pipeline = Partitions::new(vec![vec!['h', 'e'], vec![], vec!['y']]);
    let all: Option<String> = collect_ready(pipeline);
    assert_eq!(all, Some(String::from("hey")));

    let pipeline = Partitions::new(vec![
        vec![String::from("ab"), String::from("c")],
        vec![String::from("de")],
    ]);
    let all: Option<String> = collect_ready(pipeline);
    assert_eq!(all, Some(String::from("abcde")));
}

#[test]
fn collect_into_unit() {
    let pipeline = Partitions::new(vec![vec![(), ()], vec![()]]);
    let all: Option<()> = collect_ready(pipeline);
    assert_eq!(all, Some(()));
}

#[test]
fn collect_nothing() {
    let pipeline: Partitions<u8> = Partitions::new(vec![]);
    let all: Option<Vec<u8>> = collect_ready(pipeline);
    assert_eq!(all, Some(vec![]));
    let pipeline: Partitions<Result<u8, String>> = Partitions::new(vec![vec![]]);
    let all: Option<Result<Vec<u8>, String>> = collect_ready(pipeline);
    assert_eq!(all, Some(Ok(vec![])));
}

#[test]
fn collect_optional_items() {
    let pipeline = Partitions::new(vec![vec![Some(1u8), Some(2)], vec![Some(3)]]);
    let all: Option<Option<Vec<u8>>> = collect_ready(pipeline);
    assert_eq!(all, Some(Some(vec![1, 2, 3])));

    let pipeline = Partitions::new(vec![vec![Some(1u8), None, Some(2)], vec![Some(3)]]);
    let all: Option<Option<Vec<u8>>> = collect_ready(pipeline);
    assert_eq!(all, Some(None));
}

#[test]
fn collect_fallible_items_without_failure() {
    let pipeline: Partitions<Result<u8, String>> =
        Partitions::new(vec![vec![Ok(1), Ok(2)], vec![Ok(3)]]);
    let all: Option<Result<Vec<u8>, String>> = collect_ready(pipeline);
    assert_eq!(all, Some(Ok(vec![1, 2, 3])));
}

#[test]
fn collect_every_outcome_instead_of_stopping() {
    let pipeline: Partitions<Result<u8, String>> =
        Partitions::new(vec![vec![Ok(1), Err(String::from("bad"))], vec![Ok(3)]]);
    let all: Option<Vec<Result<u8, String>>> = collect_ready(pipeline);
    assert_eq!(all, Some(vec![Ok(1), Err(String::from("bad")), Ok(3)]));
}

#[test]
fn nested_wrappers_short_circuit_at_their_own_level() {
    let pipeline: Partitions<Result<Option<u8>, String>> =
        Partitions::new(vec![vec![Ok(Some(1)), Ok(None), Err(String::from("late"))]]);
    let all: Option<Result<Option<Vec<u8>>, String>> = collect_ready(pipeline);
    assert_eq!(all, Some(Ok(None)));

    let pipeline: Partitions<Result<Option<u8>, String>> =
        Partitions::new(vec![vec![Ok(Some(1)), Err(String::from("first")), Ok(None)]]);
    let all: Option<Result<Option<Vec<u8>>, String>> = collect_ready(pipeline);
    assert_eq!(all, Some(Err(String::from("first"))));
}

#[test]
fn option_reducer_halts_on_the_first_missing_item() {
    let mut r: OptionReducer<PushReducer<u8, Vec<u8>>> = OptionReducer::default();
    assert!(r.push(Some(1)));
    assert!(!r.push(None));
    assert!(!r.push(Some(2)));
    assert_eq!(r.ret(), None);

    let mut r: OptionReducer<PushReducer<u8, Vec<u8>>> = OptionReducer::new(None);
    assert!(!r.push(Some(1)));
    assert_eq!(r.ret(), None);
}

#[test]
fn result_reducer_starts_halted_when_made_from_a_failure() {
    let mut r: ResultReducer<PushReducer<u8, Vec<u8>>, char> = ResultReducer::new(Err('e'));
    assert!(!r.push(Ok(1)));
    assert!(!r.push(Err('f')));
    assert_eq!(r.ret(), Err('e'));
}

#[test]
fn factories_make_fresh_reducers() {
    let factory: DefaultReduceFactory<PushReducer<u8, Vec<u8>>> = DefaultReduceFactory::default();
    let mut one = factory.make();
    let two = factory.make();
    assert!(one.push(1));
    assert_eq!(one.ret(), vec![1]);
    assert_eq!(two.ret(), Vec::<u8>::new());

    let options = OptionReduceFactory(DefaultReduceFactory::<PushReducer<u8, Vec<u8>>>::default());
    let mut r = options.make();
    assert!(r.push(Some(4)));
    assert_eq!(r.ret(), Some(vec![4]));

    let results: ResultReduceFactory<DefaultReduceFactory<PushReducer<u8, Vec<u8>>>, char> =
        ResultReduceFactory(DefaultReduceFactory::default(), PhantomData);
    let mut r = results.make();
    assert!(r.push(Ok(4)));
    assert_eq!(r.ret(), Ok(vec![4]));
}

#[test]
fn into_reducer_converts_at_the_end() {
    let mut r: IntoReducer<ExtendReducer<Vec<u8>>, VecDeque<u8>> = IntoReducer::default();
    assert!(r.push(vec![1, 2]));
    assert!(r.push(vec![3]));
    let out: VecDeque<u8> = r.ret();
    assert_eq!(out, VecDeque::from(vec![1, 2, 3]));
}

#[test]
fn collect_hands_out_the_pipeline_and_the_reducers() {
    let collect: Collect<Identity, Vec<u8>> = Collect::new(Identity);
    let (_pipeline, factory, mut b) =
        <Collect<Identity, Vec<u8>> as DistributedReducer<Identity, u8, Vec<u8>>>::reducers(
            collect,
        );
    let mut a = factory.make();
    assert!(a.push(7));
    assert!(b.push(a.ret()));
    assert_eq!(b.ret(), vec![7]);
}

#[test]
fn reducers_of_a_target_start_empty() {
    let (factory, b) = <String as FromDistributedIterator<char>>::reducers();
    assert_eq!(factory.make().ret(), "");
    assert_eq!(b.ret(), "");
}

#[test]
fn collect_into_a_list() {
    let pipeline = Partitions::new(vec![vec![1u8, 2], vec![], vec![3]]);
    let all: Option<List<u8>> = collect_ready(pipeline);
    let all = all.unwrap();
    assert_eq!(all.len(), 3);
    assert_eq!(all.into_vec(), vec![1, 2, 3]);
}

#[test]
fn a_list_takes_items_at_the_back() {
    let mut list: List<u8> = List::new();
    Push::push(&mut list, 1);
    Push::push(&mut list, 2);
    list.extend_with(List::from_vec(vec![3, 4]));
    list.extend_with(List::default());
    assert_eq!(list.into_vec(), vec![1, 2, 3, 4]);
}

#[test]
fn collect_into_a_heap() {
    let pipeline = Partitions::new(vec![vec![3u8, 1], vec![1], vec![2]]);
    let all: Option<Heap<u8>> = collect_ready(pipeline);
    let all = all.unwrap();
    assert_eq!(all.len(), 4);
    let mut items = all.into_vec();
    items.sort();
    assert_eq!(items, vec![1, 1, 2, 3]);
}

#[test]
fn a_vector_converts_into_the_targets() {
    let deque: VecDeque<u8> = ConvertInto::convert(vec![1u8, 2, 3]);
    assert_eq!(deque.into_iter().collect::<Vec<u8>>(), vec![1, 2, 3]);
    let heap: Heap<u8> = ConvertInto::convert(vec![2u8, 2, 1]);
    let mut items = heap.into_vec();
    items.sort();
    assert_eq!(items, vec![1, 2, 2]);
}
