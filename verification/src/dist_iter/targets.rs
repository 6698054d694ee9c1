//! Two target containers of the library's own: a list and a heap. They hold
//! what std's linked list and max-heap hold, as mathematical values that
//! contracts can speak of, and give it up as a vector for whoever wants the
//! std container.
use vstd::multiset::Multiset;
use vstd::prelude::*;
use crate::sink::{fold, lemma_fold_push, Receiver};
use super::collect::{
    DefaultReduceFactory, ExtendReducer, FromDistributedIterator, IntoReducer, PushReducer,
};
use super::containers::{ConvertInto, ExtendWith, Push};
use super::reduction::{
    all_items, collects, lemma_arrival_order_keeps_items, lemma_flatten_all_items,
    lemma_fold_extend_vec, lemma_run_always_live, lemma_run_into, lemma_task_outputs_seq,
};
use super::ReduceFactory;

verus! {

/// A list: items in the order in which they were put in.
pub struct List<T>(Vec<T>);

impl<T> View for List<T> {
    type V = Seq<T>;

    closed spec fn view(&self) -> Seq<T> {
        self.0@
    }
}

impl<T> List<T> {
    /// The empty list.
    pub fn new() -> (list: Self)
        ensures
            list@ == Seq::<T>::empty(),
    {
        List(Vec::new())
    }

    /// The list of the vector's items, in the vector's order.
    pub fn from_vec(items: Vec<T>) -> (list: Self)
        ensures
            list@ == items@,
    {
        List(items)
    }

    /// The items of the list, first to last.
    pub fn into_vec(self) -> (items: Vec<T>)
        ensures
            items@ == self@,
    {
        self.0
    }

    /// The number of items.
    pub fn len(&self) -> (n: usize)
        ensures
            n == self@.len(),
    {
        self.0.len()
    }
}

impl<T> Default for List<T> {
    fn default() -> (list: Self)
        ensures
            list@ == Seq::<T>::empty(),
    {
        List(Vec::new())
    }
}

impl<T> Push<T> for List<T> {
    type Model = Seq<T>;

    open spec fn model(&self) -> Seq<T> {
        self@
    }

    /// An item goes to the back.
    open spec fn pushed(m: Seq<T>, item: T) -> Seq<T> {
        m.push(item)
    }

    #[inline]
    fn push(&mut self, item: T) {
        self.0.push(item);
    }
}

impl<T> ExtendWith<List<T>> for List<T> {
    type Model = Seq<T>;

    open spec fn model(&self) -> Seq<T> {
        self@
    }

    open spec fn extended(m: Seq<T>, other: List<T>) -> Seq<T> {
        m + other@
    }

    #[inline]
    fn extend_with(&mut self, other: List<T>) {
        let mut other = other.0;
        self.0.append(&mut other);
    }
}

impl<T> FromDistributedIterator<T> for List<T> {
    type ReduceAFactory = DefaultReduceFactory<Self::ReduceA>;

    type ReduceA = PushReducer<T, Self>;

    type ReduceB = ExtendReducer<Self>;

    open spec fn start_a() -> Seq<T> {
        Seq::empty()
    }

    open spec fn start_b() -> Seq<T> {
        Seq::empty()
    }

    fn reducers() -> (r: (Self::ReduceAFactory, Self::ReduceB)) {
        let a: DefaultReduceFactory<PushReducer<T, List<T>>> = DefaultReduceFactory::default();
        let b: ExtendReducer<List<T>> = ExtendReducer::default();
        assert(b.state() =~= Seq::<T>::empty());
        assert forall|x: PushReducer<T, List<T>>| #[trigger] a.makes(x) implies x.state()
            == Seq::<T>::empty() by {
            assert(call_ensures(<PushReducer<T, List<T>> as Default>::default, (), x));
            assert(call_ensures(<List<T> as Default>::default, (), x.inner()));
            assert(x.state() =~= Seq::<T>::empty());
        }
        (a, b)
    }
}

/// A heap: the items that were put in, each as often as it was put in, in
/// no order. Which of them is the greatest is not looked at here.
pub struct Heap<T>(Vec<T>);

impl<T> View for Heap<T> {
    type V = Multiset<T>;

    closed spec fn view(&self) -> Multiset<T> {
        self.0@.to_multiset()
    }
}

impl<T> Heap<T> {
    /// The items of the heap, in some order.
    pub fn into_vec(self) -> (items: Vec<T>)
        ensures
            items@.to_multiset() == self@,
    {
        self.0
    }

    /// The number of items.
    pub fn len(&self) -> (n: usize)
        ensures
            n == self@.len(),
    {
        broadcast use vstd::seq_lib::group_to_multiset_ensures;

        self.0.len()
    }
}

impl<T> ConvertInto<Heap<T>> for Vec<T> {
    /// The heap holds the vector's items, each as often.
    open spec fn converts(self, out: Heap<T>) -> bool {
        out@ == self@.to_multiset()
    }

    #[inline]
    fn convert(self) -> (out: Heap<T>) {
        Heap(self)
    }
}

impl<T: Ord> FromDistributedIterator<T> for Heap<T> {
    type ReduceAFactory = DefaultReduceFactory<Self::ReduceA>;

    type ReduceA = PushReducer<T, Vec<T>>;

    type ReduceB = IntoReducer<ExtendReducer<Vec<T>>, Self>;

    open spec fn start_a() -> Seq<T> {
        Seq::empty()
    }

    open spec fn start_b() -> Seq<T> {
        Seq::empty()
    }

    fn reducers() -> (r: (Self::ReduceAFactory, Self::ReduceB)) {
        let a: DefaultReduceFactory<PushReducer<T, Vec<T>>> = DefaultReduceFactory::default();
        let b: IntoReducer<ExtendReducer<Vec<T>>, Heap<T>> = IntoReducer::default();
        assert(b.state() =~= Seq::<T>::empty());
        assert forall|x: PushReducer<T, Vec<T>>| #[trigger] a.makes(x) implies x.state()
            == Seq::<T>::empty() by {
            assert(call_ensures(<PushReducer<T, Vec<T>> as Default>::default, (), x));
            assert(call_ensures(<Vec<T> as Default>::default, (), x.inner()));
            assert(x.state() =~= Seq::<T>::empty());
        }
        (a, b)
    }
}

/// The views of per-task outputs that are lists.
pub open spec fn list_views<T>(outs: Seq<List<T>>) -> Seq<Seq<T>> {
    outs.map_values(|l: List<T>| l@)
}

/// Pushing items into a list appends them.
pub proof fn lemma_fold_push_list<T>(s: Seq<T>, items: Seq<T>)
    ensures
        fold::<PushReducer<T, List<T>>>(s, items) == s + items,
    decreases items.len(),
{
    if items.len() == 0 {
        assert(s + items =~= s);
    } else {
        let init = items.drop_last();
        lemma_fold_push_list::<T>(s, init);
        assert(init.push(items.last()) =~= items);
        lemma_fold_push::<PushReducer<T, List<T>>>(s, init, items.last());
        assert((s + init).push(items.last()) =~= s + items);
    }
}

/// Extending a list by lists appends their concatenation.
pub proof fn lemma_fold_extend_list<T>(s: Seq<T>, outs: Seq<List<T>>)
    ensures
        fold::<ExtendReducer<List<T>>>(s, outs) == s + list_views(outs).flatten(),
    decreases outs.len(),
{
    if outs.len() == 0 {
        assert(s + list_views(outs).flatten() =~= s);
    } else {
        let init = outs.drop_last();
        lemma_fold_extend_list::<T>(s, init);
        assert(init.push(outs.last()) =~= outs);
        lemma_fold_push::<ExtendReducer<List<T>>>(s, init, outs.last());
        assert(list_views(init).push(outs.last()@) =~= list_views(outs));
        list_views(init).lemma_flatten_push(outs.last()@);
        assert(s + list_views(init).flatten() + outs.last()@ =~= s + list_views(outs).flatten());
    }
}

/// Collecting into a list concatenates the tasks in the order in which they
/// arrive: each task's items stay together and in order.
pub proof fn lemma_collect_list<T>(tasks: Seq<Seq<T>>, outs: Seq<List<T>>, c: List<T>)
    requires
        collects::<T, List<T>>(tasks, outs, c),
    ensures
        c@ == tasks.flatten(),
        c@.to_multiset() == all_items(tasks),
{
    assert forall|i: int| 0 <= i < tasks.len() implies list_views(outs)[i] == tasks[i] by {
        lemma_run_always_live::<PushReducer<T, List<T>>>(Seq::empty(), tasks[i]);
        lemma_fold_push_list::<T>(Seq::empty(), tasks[i]);
        assert(Seq::<T>::empty() + tasks[i] =~= tasks[i]);
        assert(outs[i]@ == tasks[i]);
    }
    assert(list_views(outs) =~= tasks);
    lemma_run_always_live::<ExtendReducer<List<T>>>(Seq::empty(), outs);
    lemma_fold_extend_list::<T>(Seq::empty(), outs);
    assert(Seq::<T>::empty() + tasks.flatten() =~= tasks.flatten());
    lemma_flatten_all_items(tasks);
}

/// Collecting into a heap gives the items of all tasks, each as often as
/// the tasks hold it.
pub proof fn lemma_collect_heap<T: Ord>(tasks: Seq<Seq<T>>, outs: Seq<Vec<T>>, c: Heap<T>)
    requires
        collects::<T, Heap<T>>(tasks, outs, c),
    ensures
        c@ == all_items(tasks),
{
    lemma_task_outputs_seq::<T>(tasks, outs);
    lemma_run_into::<ExtendReducer<Vec<T>>, Heap<T>>(Seq::empty(), outs);
    lemma_run_always_live::<ExtendReducer<Vec<T>>>(Seq::empty(), outs);
    lemma_fold_extend_vec::<T>(Seq::empty(), outs);
    assert(Seq::<T>::empty() + tasks.flatten() =~= tasks.flatten());
    lemma_flatten_all_items(tasks);
}

/// Collecting into a heap, in whatever order the tasks arrive, gives what a
/// single pass over the tasks, one after the other, gives.
pub proof fn lemma_collect_heap_any_order<T: Ord>(
    tasks: Seq<Seq<T>>,
    arrived: Seq<Seq<T>>,
    outs: Seq<Vec<T>>,
    c: Heap<T>,
)
    requires
        arrived.to_multiset() == tasks.to_multiset(),
        collects::<T, Heap<T>>(arrived, outs, c),
    ensures
        c@ == tasks.flatten().to_multiset(),
{
    lemma_collect_heap::<T>(arrived, outs, c);
    lemma_arrival_order_keeps_items(tasks, arrived);
    lemma_flatten_all_items(arrived);
}

} // verus!
