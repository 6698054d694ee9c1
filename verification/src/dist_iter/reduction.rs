//! The two-level reduction, and what it returns for each target container.
//!
//! A job's result is the cross-task reducer run over the per-task outputs, in
//! the order in which they arrive; each per-task output is what a fresh
//! per-task reducer returns after a run over that task's items.
use std::collections::{BTreeMap, BTreeSet, HashMap, HashSet, VecDeque};
use std::hash::{BuildHasher, Hash};
use vstd::multiset::Multiset;
use vstd::prelude::*;
use vstd::seq_lib::{lemma_fold_left_permutation, lemma_multiset_commutative};
use crate::sink::{fold, lemma_fold_push, run, Receiver, Run};
use super::collect::{ExtendReducer, FromDistributedIterator, IntoReducer, PushReducer};
use super::containers::{hashed, ConvertInto};
use vstd::laws_cmp::obeys_cmp;
use super::Reducer;

verus! {

/// Whether `outs` are per-task outputs for `tasks`: one for each task, what
/// a reducer that started in `start` may return after a run over the task's
/// items.
pub open spec fn task_outputs<A: Reducer>(
    start: A::State,
    tasks: Seq<Seq<A::Item>>,
    outs: Seq<A::Output>,
) -> bool {
    &&& outs.len() == tasks.len()
    &&& forall|i: int|
        0 <= i < tasks.len() ==> A::yields(run::<A>(start, tasks[i]).state, #[trigger] outs[i])
}

/// Whether `c` is a result of collecting `tasks`, given in the order in which
/// their outputs `outs` arrive, into the container `C`.
pub open spec fn collects<T, C: FromDistributedIterator<T>>(
    tasks: Seq<Seq<T>>,
    outs: Seq<<C::ReduceA as Reducer>::Output>,
    c: C,
) -> bool {
    &&& task_outputs::<C::ReduceA>(C::start_a(), tasks, outs)
    &&& <C::ReduceB as Reducer>::yields(run::<C::ReduceB>(C::start_b(), outs).state, c)
}

/// A receiver that always asks for more is offered everything, and its run
/// is a fold.
pub proof fn lemma_run_always_live<R: Receiver>(s: R::State, items: Seq<R::Item>)
    requires
        forall|t: R::State| #[trigger] R::live(t),
    ensures
        run::<R>(s, items) == (Run {
            state: fold::<R>(s, items),
            offered: items.len(),
            more: true,
        }),
    decreases items.len(),
{
    if items.len() > 0 {
        lemma_run_always_live::<R>(R::step(s, items[0]), items.drop_first());
    }
}

/// All items of all tasks, as a multiset.
pub open spec fn all_items<T>(tasks: Seq<Seq<T>>) -> Multiset<T> {
    tasks.fold_left(Multiset::empty(), |m: Multiset<T>, t: Seq<T>| m.add(t.to_multiset()))
}

/// The concatenation of the tasks holds all their items, each as often as
/// the tasks do.
pub proof fn lemma_flatten_all_items<T>(tasks: Seq<Seq<T>>)
    ensures
        tasks.flatten().to_multiset() == all_items(tasks),
    decreases tasks.len(),
{
    if tasks.len() == 0 {
        assert(tasks.flatten().to_multiset() =~= Multiset::<T>::empty()) by {
            broadcast use vstd::seq_lib::group_to_multiset_ensures;

        }
    } else {
        let init = tasks.drop_last();
        lemma_flatten_all_items(init);
        assert(init.push(tasks.last()) =~= tasks);
        init.lemma_flatten_push(tasks.last());
        lemma_multiset_commutative(init.flatten(), tasks.last());
    }
}

/// In whatever order the tasks complete, together they hold the same items.
pub proof fn lemma_arrival_order_keeps_items<T>(tasks: Seq<Seq<T>>, arrived: Seq<Seq<T>>)
    requires
        tasks.to_multiset() == arrived.to_multiset(),
    ensures
        tasks.flatten().to_multiset() == arrived.flatten().to_multiset(),
{
    let f = |m: Multiset<T>, t: Seq<T>| m.add(t.to_multiset());
    assert forall|x: Seq<T>, y: Seq<T>, v: Multiset<T>| #[trigger] f(f(v, x), y) == f(f(v, y), x) by {
        assert(v.add(x.to_multiset()).add(y.to_multiset()) =~= v.add(y.to_multiset()).add(
            x.to_multiset(),
        ));
    }
    lemma_fold_left_permutation(tasks, arrived, f, Multiset::empty());
    lemma_flatten_all_items(tasks);
    lemma_flatten_all_items(arrived);
}

/// Where the items of task `i` begin in the concatenation of the tasks.
pub open spec fn offset_of<T>(tasks: Seq<Seq<T>>, i: int) -> int {
    tasks.take(i).flatten().len() as int
}

/// In the concatenation of the tasks, the items of each task stand together
/// and in the task's order.
pub proof fn lemma_flatten_keeps_tasks<T>(tasks: Seq<Seq<T>>, i: int)
    requires
        0 <= i < tasks.len(),
    ensures
        offset_of(tasks, i) + tasks[i].len() <= tasks.flatten().len(),
        tasks.flatten().subrange(offset_of(tasks, i), offset_of(tasks, i) + tasks[i].len())
            == tasks[i],
{
    let head = tasks.take(i);
    let tail = tasks.skip(i + 1);
    assert(tasks =~= head.push(tasks[i]) + tail);
    vstd::seq_lib::lemma_flatten_concat(head.push(tasks[i]), tail);
    head.lemma_flatten_push(tasks[i]);
    let o = head.flatten().len() as int;
    assert(tasks.flatten() =~= head.flatten() + tasks[i] + tail.flatten());
    assert(tasks.flatten().subrange(o, o + tasks[i].len()) =~= tasks[i]);
}

/// The views of per-task outputs that are vectors.
pub open spec fn views<T>(outs: Seq<Vec<T>>) -> Seq<Seq<T>> {
    outs.map_values(|v: Vec<T>| v@)
}

/// Pushing items into a sequence appends them.
pub proof fn lemma_fold_push_seq<T>(s: Seq<T>, items: Seq<T>)
    ensures
        fold::<PushReducer<T, Vec<T>>>(s, items) == s + items,
    decreases items.len(),
{
    if items.len() == 0 {
        assert(s + items =~= s);
    } else {
        let init = items.drop_last();
        lemma_fold_push_seq::<T>(s, init);
        assert(init.push(items.last()) =~= items);
        lemma_fold_push::<PushReducer<T, Vec<T>>>(s, init, items.last());
        assert((s + init).push(items.last()) =~= s + items);
    }
}

/// Extending a vector by vectors appends their concatenation.
pub proof fn lemma_fold_extend_vec<T>(s: Seq<T>, outs: Seq<Vec<T>>)
    ensures
        fold::<ExtendReducer<Vec<T>>>(s, outs) == s + views(outs).flatten(),
    decreases outs.len(),
{
    if outs.len() == 0 {
        assert(s + views(outs).flatten() =~= s);
    } else {
        let init = outs.drop_last();
        lemma_fold_extend_vec::<T>(s, init);
        assert(init.push(outs.last()) =~= outs);
        lemma_fold_push::<ExtendReducer<Vec<T>>>(s, init, outs.last());
        assert(views(init).push(outs.last()@) =~= views(outs));
        views(init).lemma_flatten_push(outs.last()@);
        assert(s + views(init).flatten() + outs.last()@ =~= s + views(outs).flatten());
    }
}

/// A reducer that converts at the end runs as the reducer inside it does.
pub proof fn lemma_run_into<R: Reducer, T>(s: R::State, items: Seq<R::Item>)
    where R::Output: ConvertInto<T>
    ensures
        run::<IntoReducer<R, T>>(s, items) == run::<R>(s, items),
    decreases items.len(),
{
    if items.len() > 0 {
        lemma_run_into::<R, T>(R::step(s, items[0]), items.drop_first());
    }
}

/// The per-task outputs of a sequence target hold each task's items, in the
/// task's order.
pub proof fn lemma_task_outputs_seq<T>(tasks: Seq<Seq<T>>, outs: Seq<Vec<T>>)
    requires
        task_outputs::<PushReducer<T, Vec<T>>>(Seq::empty(), tasks, outs),
    ensures
        views(outs) == tasks,
{
    assert forall|i: int| 0 <= i < tasks.len() implies views(outs)[i] == tasks[i] by {
        lemma_run_always_live::<PushReducer<T, Vec<T>>>(Seq::empty(), tasks[i]);
        lemma_fold_push_seq::<T>(Seq::empty(), tasks[i]);
        assert(Seq::<T>::empty() + tasks[i] =~= tasks[i]);
        assert(outs[i]@ == tasks[i]);
    }
    assert(views(outs) =~= tasks);
}

/// Collecting into a vector concatenates the tasks in the order in which
/// they arrive: each task's items stay together and in order, and the result
/// holds exactly the items of all tasks.
pub proof fn lemma_collect_vec<T>(tasks: Seq<Seq<T>>, outs: Seq<Vec<T>>, c: Vec<T>)
    requires
        collects::<T, Vec<T>>(tasks, outs, c),
    ensures
        c@ == tasks.flatten(),
        c@.to_multiset() == all_items(tasks),
{
    lemma_task_outputs_seq::<T>(tasks, outs);
    lemma_run_always_live::<ExtendReducer<Vec<T>>>(Seq::empty(), outs);
    lemma_fold_extend_vec::<T>(Seq::empty(), outs);
    assert(Seq::<T>::empty() + tasks.flatten() =~= tasks.flatten());
    lemma_flatten_all_items(tasks);
}

/// Collecting into a vector, in whatever order the tasks arrive, gives the
/// items that a single pass over the tasks, one after the other, gives: the
/// same items, each as often.
pub proof fn lemma_collect_vec_any_order<T>(
    tasks: Seq<Seq<T>>,
    arrived: Seq<Seq<T>>,
    outs: Seq<Vec<T>>,
    c: Vec<T>,
)
    requires
        arrived.to_multiset() == tasks.to_multiset(),
        collects::<T, Vec<T>>(arrived, outs, c),
    ensures
        c@.to_multiset() == tasks.flatten().to_multiset(),
{
    lemma_collect_vec::<T>(arrived, outs, c);
    lemma_arrival_order_keeps_items(tasks, arrived);
}

/// Collecting into a double-ended queue concatenates the tasks in the order
/// in which they arrive.
pub proof fn lemma_collect_deque<T>(tasks: Seq<Seq<T>>, outs: Seq<Vec<T>>, c: VecDeque<T>)
    requires
        collects::<T, VecDeque<T>>(tasks, outs, c),
    ensures
        c@ == tasks.flatten(),
        c@.to_multiset() == all_items(tasks),
{
    lemma_task_outputs_seq::<T>(tasks, outs);
    lemma_run_into::<ExtendReducer<Vec<T>>, VecDeque<T>>(Seq::empty(), outs);
    lemma_run_always_live::<ExtendReducer<Vec<T>>>(Seq::empty(), outs);
    lemma_fold_extend_vec::<T>(Seq::empty(), outs);
    assert(Seq::<T>::empty() + tasks.flatten() =~= tasks.flatten());
    lemma_flatten_all_items(tasks);
}


/// The same items, in whatever order, make the same set.
pub proof fn lemma_same_items_same_set<T>(a: Seq<T>, b: Seq<T>)
    requires
        a.to_multiset() == b.to_multiset(),
    ensures
        a.to_set() == b.to_set(),
{
    broadcast use vstd::seq_lib::group_to_multiset_ensures;

    assert forall|x: T| a.to_set().contains(x) <==> b.to_set().contains(x) by {
        assert(a.contains(x) <==> a.to_multiset().count(x) > 0);
        assert(b.contains(x) <==> b.to_multiset().count(x) > 0);
    }
    assert(a.to_set() =~= b.to_set());
}

/// The map that inserting the pairs in order leaves: where a key comes more
/// than once, the last write wins.
pub open spec fn inserted<K, V>(m: Map<K, V>, pairs: Seq<(K, V)>) -> Map<K, V>
    decreases pairs.len(),
{
    if pairs.len() == 0 {
        m
    } else {
        inserted(m, pairs.drop_last()).insert(pairs.last().0, pairs.last().1)
    }
}

/// Inserting pairs after others.
pub proof fn lemma_inserted_concat<K, V>(m: Map<K, V>, a: Seq<(K, V)>, b: Seq<(K, V)>)
    ensures
        inserted(m, a + b) == inserted(inserted(m, a), b),
    decreases b.len(),
{
    if b.len() == 0 {
        assert(a + b =~= a);
    } else {
        lemma_inserted_concat(m, a, b.drop_last());
        assert((a + b).drop_last() =~= a + b.drop_last());
        assert((a + b).last() == b.last());
    }
}

/// Taking in a map that pairs were inserted into is inserting the pairs.
pub proof fn lemma_union_inserted<K, V>(m: Map<K, V>, pairs: Seq<(K, V)>)
    ensures
        m.union_prefer_right(inserted(Map::empty(), pairs)) == inserted(m, pairs),
    decreases pairs.len(),
{
    if pairs.len() == 0 {
        assert(m.union_prefer_right(Map::<K, V>::empty()) =~= m);
    } else {
        lemma_union_inserted(m, pairs.drop_last());
        let init = inserted(Map::<K, V>::empty(), pairs.drop_last());
        let k = pairs.last().0;
        let v = pairs.last().1;
        assert(m.union_prefer_right(init.insert(k, v)) =~= m.union_prefer_right(init).insert(k, v));
    }
}

/// Last write wins: a key has the value of the last pair that holds it.
pub proof fn lemma_inserted_last_wins<K, V>(m: Map<K, V>, pairs: Seq<(K, V)>, i: int)
    requires
        0 <= i < pairs.len(),
        forall|j: int| i < j < pairs.len() ==> (#[trigger] pairs[j]).0 != pairs[i].0,
    ensures
        inserted(m, pairs).contains_key(pairs[i].0),
        inserted(m, pairs)[pairs[i].0] == pairs[i].1,
    decreases pairs.len(),
{
    if i < pairs.len() - 1 {
        assert(pairs.last() == pairs[pairs.len() - 1]);
        assert forall|j: int| i < j < pairs.drop_last().len() implies (#[trigger] pairs.drop_last()[j]).0
            != pairs.drop_last()[i].0 by {
            assert(pairs.drop_last()[j] == pairs[j]);
        }
        lemma_inserted_last_wins(m, pairs.drop_last(), i);
    }
}

/// A key that no pair holds keeps what the map had for it.
pub proof fn lemma_inserted_keeps_others<K, V>(m: Map<K, V>, pairs: Seq<(K, V)>, k: K)
    requires
        forall|j: int| 0 <= j < pairs.len() ==> (#[trigger] pairs[j]).0 != k,
    ensures
        inserted(m, pairs).contains_key(k) == m.contains_key(k),
        m.contains_key(k) ==> inserted(m, pairs)[k] == m[k],
    decreases pairs.len(),
{
    if pairs.len() > 0 {
        assert(pairs.last() == pairs[pairs.len() - 1]);
        assert forall|j: int| 0 <= j < pairs.drop_last().len() implies (#[trigger] pairs.drop_last()[j]).0
            != k by {
            assert(pairs.drop_last()[j] == pairs[j]);
        }
        lemma_inserted_keeps_others(m, pairs.drop_last(), k);
    }
}

/// Pushing items into a hash set adds them to what it holds.
pub proof fn lemma_fold_push_hash_set<T: Eq + Hash, S: BuildHasher>(s: Set<T>, items: Seq<T>)
    requires
        hashed::<T, S>(),
    ensures
        fold::<PushReducer<T, HashSet<T, S>>>(s, items) == s.union(items.to_set()),
    decreases items.len(),
{
    if items.len() == 0 {
        assert(s.union(items.to_set()) =~= s);
    } else {
        let init = items.drop_last();
        lemma_fold_push_hash_set::<T, S>(s, init);
        assert(init.push(items.last()) =~= items);
        lemma_fold_push::<PushReducer<T, HashSet<T, S>>>(s, init, items.last());
        init.lemma_push_to_set_commute(items.last());
        assert(s.union(init.to_set()).insert(items.last()) =~= s.union(items.to_set()));
    }
}

/// Extending a hash set by the per-task sets adds the items of all tasks.
pub proof fn lemma_fold_extend_hash_set<T: Eq + Hash, S: BuildHasher>(
    s: Set<T>,
    tasks: Seq<Seq<T>>,
    outs: Seq<HashSet<T, S>>,
)
    requires
        hashed::<T, S>(),
        outs.len() == tasks.len(),
        forall|i: int| 0 <= i < tasks.len() ==> (#[trigger] outs[i])@ == tasks[i].to_set(),
    ensures
        fold::<ExtendReducer<HashSet<T, S>>>(s, outs) == s.union(tasks.flatten().to_set()),
    decreases outs.len(),
{
    if outs.len() == 0 {
        assert(tasks.flatten().to_set() =~= Set::<T>::empty());
        assert(s.union(tasks.flatten().to_set()) =~= s);
    } else {
        let init = outs.drop_last();
        let tinit = tasks.drop_last();
        assert forall|i: int| 0 <= i < tinit.len() implies (#[trigger] init[i])@
            == tinit[i].to_set() by {
            assert(init[i] == outs[i]);
        }
        lemma_fold_extend_hash_set::<T, S>(s, tinit, init);
        assert(init.push(outs.last()) =~= outs);
        assert(tinit.push(tasks.last()) =~= tasks);
        lemma_fold_push::<ExtendReducer<HashSet<T, S>>>(s, init, outs.last());
        tinit.lemma_flatten_push(tasks.last());
        vstd::seq_lib::seq_to_set_distributes_over_add(tinit.flatten(), tasks.last());
        assert(outs.last() == outs[outs.len() - 1]);
        assert(s.union(tinit.flatten().to_set()).union(tasks.last().to_set()) =~= s.union(
            tasks.flatten().to_set(),
        ));
    }
}

/// Collecting into a hash set gives the set of the items of all tasks,
/// whatever the order in which the tasks arrive.
pub proof fn lemma_collect_hash_set<T: Eq + Hash, S: BuildHasher + Default>(
    tasks: Seq<Seq<T>>,
    outs: Seq<HashSet<T, S>>,
    c: HashSet<T, S>,
)
    requires
        hashed::<T, S>(),
        collects::<T, HashSet<T, S>>(tasks, outs, c),
    ensures
        c@ == tasks.flatten().to_set(),
{
    assert forall|i: int| 0 <= i < tasks.len() implies (#[trigger] outs[i])@
        == tasks[i].to_set() by {
        lemma_run_always_live::<PushReducer<T, HashSet<T, S>>>(Set::empty(), tasks[i]);
        lemma_fold_push_hash_set::<T, S>(Set::empty(), tasks[i]);
        assert(Set::<T>::empty().union(tasks[i].to_set()) =~= tasks[i].to_set());
    }
    lemma_run_always_live::<ExtendReducer<HashSet<T, S>>>(Set::empty(), outs);
    lemma_fold_extend_hash_set::<T, S>(Set::empty(), tasks, outs);
    assert(Set::<T>::empty().union(tasks.flatten().to_set()) =~= tasks.flatten().to_set());
}

/// Pushing items into an ordered set adds them to what it holds.
pub proof fn lemma_fold_push_btree_set<T: Ord>(s: Set<T>, items: Seq<T>)
    requires
        obeys_cmp::<T>(),
    ensures
        fold::<PushReducer<T, BTreeSet<T>>>(s, items) == s.union(items.to_set()),
    decreases items.len(),
{
    if items.len() == 0 {
        assert(s.union(items.to_set()) =~= s);
    } else {
        let init = items.drop_last();
        lemma_fold_push_btree_set::<T>(s, init);
        assert(init.push(items.last()) =~= items);
        lemma_fold_push::<PushReducer<T, BTreeSet<T>>>(s, init, items.last());
        init.lemma_push_to_set_commute(items.last());
        assert(s.union(init.to_set()).insert(items.last()) =~= s.union(items.to_set()));
    }
}

/// Extending an ordered set by the per-task sets adds the items of all tasks.
pub proof fn lemma_fold_extend_btree_set<T: Ord>(
    s: Set<T>,
    tasks: Seq<Seq<T>>,
    outs: Seq<BTreeSet<T>>,
)
    requires
        obeys_cmp::<T>(),
        outs.len() == tasks.len(),
        forall|i: int| 0 <= i < tasks.len() ==> (#[trigger] outs[i])@ == tasks[i].to_set(),
    ensures
        fold::<ExtendReducer<BTreeSet<T>>>(s, outs) == s.union(tasks.flatten().to_set()),
    decreases outs.len(),
{
    if outs.len() == 0 {
        assert(tasks.flatten().to_set() =~= Set::<T>::empty());
        assert(s.union(tasks.flatten().to_set()) =~= s);
    } else {
        let init = outs.drop_last();
        let tinit = tasks.drop_last();
        assert forall|i: int| 0 <= i < tinit.len() implies (#[trigger] init[i])@
            == tinit[i].to_set() by {
            assert(init[i] == outs[i]);
        }
        lemma_fold_extend_btree_set::<T>(s, tinit, init);
        assert(init.push(outs.last()) =~= outs);
        assert(tinit.push(tasks.last()) =~= tasks);
        lemma_fold_push::<ExtendReducer<BTreeSet<T>>>(s, init, outs.last());
        tinit.lemma_flatten_push(tasks.last());
        vstd::seq_lib::seq_to_set_distributes_over_add(tinit.flatten(), tasks.last());
        assert(outs.last() == outs[outs.len() - 1]);
        assert(s.union(tinit.flatten().to_set()).union(tasks.last().to_set()) =~= s.union(
            tasks.flatten().to_set(),
        ));
    }
}

/// Collecting into an ordered set gives the set of the items of all tasks,
/// whatever the order in which the tasks arrive.
pub proof fn lemma_collect_btree_set<T: Ord>(
    tasks: Seq<Seq<T>>,
    outs: Seq<BTreeSet<T>>,
    c: BTreeSet<T>,
)
    requires
        obeys_cmp::<T>(),
        collects::<T, BTreeSet<T>>(tasks, outs, c),
    ensures
        c@ == tasks.flatten().to_set(),
{
    assert forall|i: int| 0 <= i < tasks.len() implies (#[trigger] outs[i])@
        == tasks[i].to_set() by {
        lemma_run_always_live::<PushReducer<T, BTreeSet<T>>>(Set::empty(), tasks[i]);
        lemma_fold_push_btree_set::<T>(Set::empty(), tasks[i]);
        assert(Set::<T>::empty().union(tasks[i].to_set()) =~= tasks[i].to_set());
    }
    lemma_run_always_live::<ExtendReducer<BTreeSet<T>>>(Set::empty(), outs);
    lemma_fold_extend_btree_set::<T>(Set::empty(), tasks, outs);
    assert(Set::<T>::empty().union(tasks.flatten().to_set()) =~= tasks.flatten().to_set());
}

/// Collecting into a hash set, in whatever order the tasks arrive, gives the
/// set that a single pass over the tasks, one after the other, gives.
pub proof fn lemma_collect_hash_set_any_order<T: Eq + Hash, S: BuildHasher + Default>(
    tasks: Seq<Seq<T>>,
    arrived: Seq<Seq<T>>,
    outs: Seq<HashSet<T, S>>,
    c: HashSet<T, S>,
)
    requires
        hashed::<T, S>(),
        arrived.to_multiset() == tasks.to_multiset(),
        collects::<T, HashSet<T, S>>(arrived, outs, c),
    ensures
        c@ == tasks.flatten().to_set(),
{
    lemma_collect_hash_set::<T, S>(arrived, outs, c);
    lemma_arrival_order_keeps_items(tasks, arrived);
    lemma_same_items_same_set(tasks.flatten(), arrived.flatten());
}

/// Collecting into an ordered set, in whatever order the tasks arrive, gives the
/// set that a single pass over the tasks, one after the other, gives.
pub proof fn lemma_collect_btree_set_any_order<T: Ord>(
    tasks: Seq<Seq<T>>,
    arrived: Seq<Seq<T>>,
    outs: Seq<BTreeSet<T>>,
    c: BTreeSet<T>,
)
    requires
        obeys_cmp::<T>(),
        arrived.to_multiset() == tasks.to_multiset(),
        collects::<T, BTreeSet<T>>(arrived, outs, c),
    ensures
        c@ == tasks.flatten().to_set(),
{
    lemma_collect_btree_set::<T>(arrived, outs, c);
    lemma_arrival_order_keeps_items(tasks, arrived);
    lemma_same_items_same_set(tasks.flatten(), arrived.flatten());
}

/// Pushing pairs into a hash map inserts them in order.
pub proof fn lemma_fold_push_hash_map<K: Eq + Hash, V, S: BuildHasher>(s: Map<K, V>, pairs: Seq<(K, V)>)
    requires
        hashed::<K, S>(),
    ensures
        fold::<PushReducer<(K, V), HashMap<K, V, S>>>(s, pairs) == inserted(s, pairs),
    decreases pairs.len(),
{
    if pairs.len() > 0 {
        let init = pairs.drop_last();
        lemma_fold_push_hash_map::<K, V, S>(s, init);
        assert(init.push(pairs.last()) =~= pairs);
        lemma_fold_push::<PushReducer<(K, V), HashMap<K, V, S>>>(s, init, pairs.last());
    }
}

/// Extending a hash map by the per-task maps inserts the pairs of all tasks,
/// task by task in the order of arrival.
pub proof fn lemma_fold_extend_hash_map<K: Eq + Hash, V, S: BuildHasher>(
    s: Map<K, V>,
    tasks: Seq<Seq<(K, V)>>,
    outs: Seq<HashMap<K, V, S>>,
)
    requires
        hashed::<K, S>(),
        outs.len() == tasks.len(),
        forall|i: int|
            0 <= i < tasks.len() ==> (#[trigger] outs[i])@ == inserted(Map::empty(), tasks[i]),
    ensures
        fold::<ExtendReducer<HashMap<K, V, S>>>(s, outs) == inserted(s, tasks.flatten()),
    decreases outs.len(),
{
    if outs.len() > 0 {
        let init = outs.drop_last();
        let tinit = tasks.drop_last();
        assert forall|i: int| 0 <= i < tinit.len() implies (#[trigger] init[i])@ == inserted(
            Map::empty(),
            tinit[i],
        ) by {
            assert(init[i] == outs[i]);
        }
        lemma_fold_extend_hash_map::<K, V, S>(s, tinit, init);
        assert(init.push(outs.last()) =~= outs);
        assert(tinit.push(tasks.last()) =~= tasks);
        lemma_fold_push::<ExtendReducer<HashMap<K, V, S>>>(s, init, outs.last());
        tinit.lemma_flatten_push(tasks.last());
        assert(outs.last() == outs[outs.len() - 1]);
        lemma_union_inserted(inserted(s, tinit.flatten()), tasks.last());
        lemma_inserted_concat(s, tinit.flatten(), tasks.last());
    }
}

/// Collecting into a hash map inserts the pairs of all tasks, task by task in
/// the order in which the tasks arrive: for a key that several pairs hold,
/// the pair that comes last in that order gives the value.
pub proof fn lemma_collect_hash_map<K: Eq + Hash, V, S: BuildHasher + Default>(
    tasks: Seq<Seq<(K, V)>>,
    outs: Seq<HashMap<K, V, S>>,
    c: HashMap<K, V, S>,
)
    requires
        hashed::<K, S>(),
        collects::<(K, V), HashMap<K, V, S>>(tasks, outs, c),
    ensures
        c@ == inserted(Map::empty(), tasks.flatten()),
{
    assert forall|i: int| 0 <= i < tasks.len() implies (#[trigger] outs[i])@ == inserted(
        Map::empty(),
        tasks[i],
    ) by {
        lemma_run_always_live::<PushReducer<(K, V), HashMap<K, V, S>>>(Map::empty(), tasks[i]);
        lemma_fold_push_hash_map::<K, V, S>(Map::empty(), tasks[i]);
    }
    lemma_run_always_live::<ExtendReducer<HashMap<K, V, S>>>(Map::empty(), outs);
    lemma_fold_extend_hash_map::<K, V, S>(Map::empty(), tasks, outs);
}

/// Pushing pairs into an ordered map inserts them in order.
pub proof fn lemma_fold_push_btree_map<K: Ord, V>(s: Map<K, V>, pairs: Seq<(K, V)>)
    requires
        obeys_cmp::<K>(),
    ensures
        fold::<PushReducer<(K, V), BTreeMap<K, V>>>(s, pairs) == inserted(s, pairs),
    decreases pairs.len(),
{
    if pairs.len() > 0 {
        let init = pairs.drop_last();
        lemma_fold_push_btree_map::<K, V>(s, init);
        assert(init.push(pairs.last()) =~= pairs);
        lemma_fold_push::<PushReducer<(K, V), BTreeMap<K, V>>>(s, init, pairs.last());
    }
}

/// Extending an ordered map by the per-task maps inserts the pairs of all tasks,
/// task by task in the order of arrival.
pub proof fn lemma_fold_extend_btree_map<K: Ord, V>(
    s: Map<K, V>,
    tasks: Seq<Seq<(K, V)>>,
    outs: Seq<BTreeMap<K, V>>,
)
    requires
        obeys_cmp::<K>(),
        outs.len() == tasks.len(),
        forall|i: int|
            0 <= i < tasks.len() ==> (#[trigger] outs[i])@ == inserted(Map::empty(), tasks[i]),
    ensures
        fold::<ExtendReducer<BTreeMap<K, V>>>(s, outs) == inserted(s, tasks.flatten()),
    decreases outs.len(),
{
    if outs.len() > 0 {
        let init = outs.drop_last();
        let tinit = tasks.drop_last();
        assert forall|i: int| 0 <= i < tinit.len() implies (#[trigger] init[i])@ == inserted(
            Map::empty(),
            tinit[i],
        ) by {
            assert(init[i] == outs[i]);
        }
        lemma_fold_extend_btree_map::<K, V>(s, tinit, init);
        assert(init.push(outs.last()) =~= outs);
        assert(tinit.push(tasks.last()) =~= tasks);
        lemma_fold_push::<ExtendReducer<BTreeMap<K, V>>>(s, init, outs.last());
        tinit.lemma_flatten_push(tasks.last());
        assert(outs.last() == outs[outs.len() - 1]);
        lemma_union_inserted(inserted(s, tinit.flatten()), tasks.last());
        lemma_inserted_concat(s, tinit.flatten(), tasks.last());
    }
}

/// Collecting into an ordered map inserts the pairs of all tasks, task by task in
/// the order in which the tasks arrive: for a key that several pairs hold,
/// the pair that comes last in that order gives the value.
pub proof fn lemma_collect_btree_map<K: Ord, V>(
    tasks: Seq<Seq<(K, V)>>,
    outs: Seq<BTreeMap<K, V>>,
    c: BTreeMap<K, V>,
)
    requires
        obeys_cmp::<K>(),
        collects::<(K, V), BTreeMap<K, V>>(tasks, outs, c),
    ensures
        c@ == inserted(Map::empty(), tasks.flatten()),
{
    assert forall|i: int| 0 <= i < tasks.len() implies (#[trigger] outs[i])@ == inserted(
        Map::empty(),
        tasks[i],
    ) by {
        lemma_run_always_live::<PushReducer<(K, V), BTreeMap<K, V>>>(Map::empty(), tasks[i]);
        lemma_fold_push_btree_map::<K, V>(Map::empty(), tasks[i]);
    }
    lemma_run_always_live::<ExtendReducer<BTreeMap<K, V>>>(Map::empty(), outs);
    lemma_fold_extend_btree_map::<K, V>(Map::empty(), tasks, outs);
}

/// The views of strings.
pub open spec fn texts(items: Seq<String>) -> Seq<Seq<char>> {
    items.map_values(|s: String| s@)
}

/// Pushing characters into a string appends them.
pub proof fn lemma_fold_push_chars(s: Seq<char>, items: Seq<char>)
    ensures
        fold::<PushReducer<char, String>>(s, items) == s + items,
    decreases items.len(),
{
    if items.len() == 0 {
        assert(s + items =~= s);
    } else {
        let init = items.drop_last();
        lemma_fold_push_chars(s, init);
        assert(init.push(items.last()) =~= items);
        lemma_fold_push::<PushReducer<char, String>>(s, init, items.last());
        assert((s + init).push(items.last()) =~= s + items);
    }
}

/// Pushing strings into a string appends their concatenation.
pub proof fn lemma_fold_push_strings(s: Seq<char>, items: Seq<String>)
    ensures
        fold::<PushReducer<String, String>>(s, items) == s + texts(items).flatten(),
    decreases items.len(),
{
    if items.len() == 0 {
        assert(s + texts(items).flatten() =~= s);
    } else {
        let init = items.drop_last();
        lemma_fold_push_strings(s, init);
        assert(init.push(items.last()) =~= items);
        lemma_fold_push::<PushReducer<String, String>>(s, init, items.last());
        assert(texts(init).push(items.last()@) =~= texts(items));
        texts(init).lemma_flatten_push(items.last()@);
        assert(s + texts(init).flatten() + items.last()@ =~= s + texts(items).flatten());
    }
}

/// Collecting characters into a string concatenates the tasks in the order
/// in which they arrive.
pub proof fn lemma_collect_chars(tasks: Seq<Seq<char>>, outs: Seq<String>, c: String)
    requires
        collects::<char, String>(tasks, outs, c),
    ensures
        c@ == tasks.flatten(),
{
    assert forall|i: int| 0 <= i < tasks.len() implies texts(outs)[i] == tasks[i] by {
        lemma_run_always_live::<PushReducer<char, String>>(Seq::empty(), tasks[i]);
        lemma_fold_push_chars(Seq::empty(), tasks[i]);
        assert(Seq::<char>::empty() + tasks[i] =~= tasks[i]);
        assert(outs[i]@ == tasks[i]);
    }
    assert(texts(outs) =~= tasks);
    lemma_run_always_live::<PushReducer<String, String>>(Seq::empty(), outs);
    lemma_fold_push_strings(Seq::empty(), outs);
    assert(Seq::<char>::empty() + tasks.flatten() =~= tasks.flatten());
}

/// What each task's strings make when put together.
pub open spec fn task_texts(tasks: Seq<Seq<String>>) -> Seq<Seq<char>> {
    tasks.map_values(|t: Seq<String>| texts(t).flatten())
}

/// Collecting strings into a string concatenates, task by task in the order
/// of arrival, the strings of each task in the task's order.
pub proof fn lemma_collect_strings(tasks: Seq<Seq<String>>, outs: Seq<String>, c: String)
    requires
        collects::<String, String>(tasks, outs, c),
    ensures
        c@ == task_texts(tasks).flatten(),
{
    assert forall|i: int| 0 <= i < tasks.len() implies texts(outs)[i] == task_texts(tasks)[i] by {
        lemma_run_always_live::<PushReducer<String, String>>(Seq::empty(), tasks[i]);
        lemma_fold_push_strings(Seq::empty(), tasks[i]);
        assert(Seq::<char>::empty() + texts(tasks[i]).flatten() =~= texts(tasks[i]).flatten());
        assert(outs[i]@ == texts(tasks[i]).flatten());
    }
    assert(texts(outs) =~= task_texts(tasks));
    lemma_run_always_live::<PushReducer<String, String>>(Seq::empty(), outs);
    lemma_fold_push_strings(Seq::empty(), outs);
    assert(Seq::<char>::empty() + task_texts(tasks).flatten() =~= task_texts(tasks).flatten());
}

} // verus!
