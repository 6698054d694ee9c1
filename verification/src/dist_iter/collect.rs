//! Collecting a pipeline into a container: the reducers of the two levels,
//! and which pair of them each target container takes.
use std::collections::{BTreeMap, BTreeSet, HashMap, HashSet, VecDeque};
use std::hash::{BuildHasher, Hash};
use core::marker::PhantomData;
use vstd::prelude::*;
use crate::sink::Receiver;
use super::containers::{ConvertInto, ExtendWith, Push};
use super::{DistributedIteratorMulti, DistributedReducer, ReduceFactory, Reducer, ReducerA};

verus! {

/// The reduction that collects a pipeline into the container `A`.
#[must_use]
pub struct Collect<I, A> {
    i: I,
    marker: PhantomData<A>,
}

impl<I, A> Collect<I, A> {
    /// The pipeline that is collected.
    pub closed spec fn inner(&self) -> I {
        self.i
    }

    pub fn new(i: I) -> (c: Self)
        ensures
            c.inner() == i,
    {
        Self { i, marker: PhantomData }
    }
}

impl<
    I: DistributedIteratorMulti<Source>,
    Source,
    T: FromDistributedIterator<I::Item>,
> DistributedReducer<I, Source, T> for Collect<I, T> {
    type ReduceAFactory = T::ReduceAFactory;

    type ReduceA = T::ReduceA;

    type ReduceB = T::ReduceB;

    open spec fn pipeline(&self) -> I {
        self.inner()
    }

    open spec fn start_a() -> <T::ReduceA as Receiver>::State {
        T::start_a()
    }

    open spec fn start_b() -> <T::ReduceB as Receiver>::State {
        T::start_b()
    }

    fn reducers(self) -> (r: (I, T::ReduceAFactory, T::ReduceB)) {
        let (a, b) = T::reducers();
        (self.i, a, b)
    }
}

/// A container that a pipeline of `T` can be collected into: it names the
/// reducers of the two levels and the states they start in.
pub trait FromDistributedIterator<T>: Sized {
    type ReduceAFactory: ReduceFactory<Reducer = Self::ReduceA>;

    type ReduceA: ReducerA<Item = T>;

    type ReduceB: Reducer<Item = <Self::ReduceA as Reducer>::Output, Output = Self>;

    /// The state in which each per-task reducer starts.
    spec fn start_a() -> <Self::ReduceA as Receiver>::State;

    /// The state in which the cross-task reducer starts.
    spec fn start_b() -> <Self::ReduceB as Receiver>::State;

    fn reducers() -> (r: (Self::ReduceAFactory, Self::ReduceB))
        ensures
            forall|a: Self::ReduceA| #[trigger] r.0.makes(a) ==> a.state() == Self::start_a(),
            r.1.state() == Self::start_b(),
    ;
}

/// The factory that makes each reducer by `Default`.
pub struct DefaultReduceFactory<T>(PhantomData<T>);

impl<T> Default for DefaultReduceFactory<T> {
    fn default() -> (f: Self) {
        Self(PhantomData)
    }
}

impl<T: Default + Reducer> ReduceFactory for DefaultReduceFactory<T> {
    type Reducer = T;

    open spec fn makes(&self, r: T) -> bool {
        call_ensures(T::default, (), r)
    }

    fn make(&self) -> (r: T) {
        T::default()
    }
}

/// The reducer that pushes each item into a container.
pub struct PushReducer<A, T = A>(T, PhantomData<A>);

impl<A, T> PushReducer<A, T> {
    /// The container as it is now.
    pub closed spec fn inner(&self) -> T {
        self.0
    }

    /// The reducer that goes on from what `container` holds: a reducer as
    /// it arrives on a worker.
    pub fn new(container: T) -> (r: Self)
        ensures
            r.inner() == container,
    {
        Self(container, PhantomData)
    }
}

impl<A, T: Default> Default for PushReducer<A, T> {
    fn default() -> (r: Self)
        ensures
            call_ensures(T::default, (), r.inner()),
    {
        Self(T::default(), PhantomData)
    }
}

impl<A, T: Push<A>> Receiver for PushReducer<A, T> {
    type Item = A;

    type State = T::Model;

    open spec fn state(&self) -> T::Model {
        self.inner().model()
    }

    open spec fn step(s: T::Model, item: A) -> T::Model {
        T::pushed(s, item)
    }

    /// A container never has enough.
    open spec fn live(s: T::Model) -> bool {
        true
    }
}

impl<A, T: Push<A>> Reducer for PushReducer<A, T> {
    type Output = T;

    open spec fn yields(s: T::Model, out: T) -> bool {
        out.model() == s
    }

    #[inline]
    fn push(&mut self, item: A) -> (more: bool) {
        self.0.push(item);
        true
    }

    fn ret(self) -> (out: T) {
        self.0
    }
}

impl<A, T: Push<A>> ReducerA for PushReducer<A, T> {

}

/// The reducer that takes each item, itself a container, into one container.
pub struct ExtendReducer<A, T = A>(T, PhantomData<A>);

impl<A, T> ExtendReducer<A, T> {
    /// The container as it is now.
    pub closed spec fn inner(&self) -> T {
        self.0
    }
}

impl<A, T: Default> Default for ExtendReducer<A, T> {
    fn default() -> (r: Self)
        ensures
            call_ensures(T::default, (), r.inner()),
    {
        Self(T::default(), PhantomData)
    }
}

impl<A, T: ExtendWith<A>> Receiver for ExtendReducer<A, T> {
    type Item = A;

    type State = T::Model;

    open spec fn state(&self) -> T::Model {
        self.inner().model()
    }

    open spec fn step(s: T::Model, item: A) -> T::Model {
        T::extended(s, item)
    }

    open spec fn live(s: T::Model) -> bool {
        true
    }
}

impl<A, T: ExtendWith<A>> Reducer for ExtendReducer<A, T> {
    type Output = T;

    open spec fn yields(s: T::Model, out: T) -> bool {
        out.model() == s
    }

    #[inline]
    fn push(&mut self, item: A) -> (more: bool) {
        self.0.extend_with(item);
        true
    }

    fn ret(self) -> (out: T) {
        self.0
    }
}

/// The reducer that converts what another reducer returns.
pub struct IntoReducer<R, T>(R, PhantomData<T>);

impl<R, T> IntoReducer<R, T> {
    /// The reducer whose result is converted.
    pub closed spec fn inner(&self) -> R {
        self.0
    }
}

impl<R: Default, T> Default for IntoReducer<R, T> {
    fn default() -> (r: Self)
        ensures
            call_ensures(R::default, (), r.inner()),
    {
        Self(R::default(), PhantomData)
    }
}

impl<R: Reducer, T> Receiver for IntoReducer<R, T> where R::Output: ConvertInto<T> {
    type Item = R::Item;

    type State = R::State;

    open spec fn state(&self) -> R::State {
        self.inner().state()
    }

    open spec fn step(s: R::State, item: R::Item) -> R::State {
        R::step(s, item)
    }

    open spec fn live(s: R::State) -> bool {
        R::live(s)
    }
}

impl<R: Reducer, T> Reducer for IntoReducer<R, T> where R::Output: ConvertInto<T> {
    type Output = T;

    /// A result of the inner reducer, converted.
    open spec fn yields(s: R::State, out: T) -> bool {
        exists|o: R::Output| #[trigger] R::yields(s, o) && o.converts(out)
    }

    #[inline]
    fn push(&mut self, item: R::Item) -> (more: bool) {
        self.0.push(item)
    }

    fn ret(self) -> (out: T) {
        let o = self.0.ret();
        let ghost inner = o;
        let out = o.convert();
        assert(R::yields(self.state(), inner) && inner.converts(out));
        out
    }
}

/// The factory of [`OptionReducer`]s over the reducers of another factory.
pub struct OptionReduceFactory<RF>(pub RF);

impl<RF: ReduceFactory> ReduceFactory for OptionReduceFactory<RF> {
    type Reducer = OptionReducer<RF::Reducer>;

    open spec fn makes(&self, r: OptionReducer<RF::Reducer>) -> bool {
        r.inner() matches Some(inner) && self.0.makes(inner)
    }

    fn make(&self) -> (r: OptionReducer<RF::Reducer>) {
        OptionReducer(Some(self.0.make()))
    }
}

/// The reducer of optional items: it folds the items that are there into an
/// inner reducer, and the first missing item halts it for good.
pub struct OptionReducer<R>(Option<R>);

impl<R> OptionReducer<R> {
    /// The inner reducer, as long as no item was missing.
    pub closed spec fn inner(&self) -> Option<R> {
        self.0
    }

    /// The reducer that folds into `inner`, or the halted one.
    pub fn new(inner: Option<R>) -> (r: Self)
        ensures
            r.inner() == inner,
    {
        OptionReducer(inner)
    }

    /// The inner reducer, unless a missing item has halted this one.
    pub fn into_inner(self) -> (inner: Option<R>)
        ensures
            inner == self.inner(),
    {
        self.0
    }
}

impl<R: Default> Default for OptionReducer<R> {
    fn default() -> (r: Self)
        ensures
            r.inner() matches Some(inner) && call_ensures(R::default, (), inner),
    {
        Self(Some(R::default()))
    }
}

impl<R: Reducer> Receiver for OptionReducer<R> {
    type Item = Option<R::Item>;

    type State = Option<R::State>;

    open spec fn state(&self) -> Option<R::State> {
        match self.inner() {
            Some(r) => Some(r.state()),
            None => None,
        }
    }

    /// An item that is there goes to the inner reducer. A missing item
    /// halts; once halted, every offer is a no-op.
    open spec fn step(s: Option<R::State>, item: Option<R::Item>) -> Option<R::State> {
        match (s, item) {
            (Some(inner), Some(i)) => Some(R::step(inner, i)),
            _ => None,
        }
    }

    open spec fn live(s: Option<R::State>) -> bool {
        match s {
            Some(inner) => R::live(inner),
            None => false,
        }
    }
}

impl<R: Reducer> Reducer for OptionReducer<R> {
    type Output = Option<R::Output>;

    open spec fn yields(s: Option<R::State>, out: Option<R::Output>) -> bool {
        match (s, out) {
            (Some(inner), Some(o)) => R::yields(inner, o),
            (None, None) => true,
            _ => false,
        }
    }

    #[inline]
    fn push(&mut self, item: Option<R::Item>) -> (more: bool) {
        match (&mut self.0, item) {
            (Some(a), Some(i)) => {
                return a.push(i);
            },
            _ => {},
        }
        self.0 = None;
        false
    }

    fn ret(self) -> (out: Option<R::Output>) {
        match self.0 {
            Some(r) => Some(r.ret()),
            None => None,
        }
    }
}

impl<R: ReducerA> ReducerA for OptionReducer<R> {

}

/// The factory of [`ResultReducer`]s over the reducers of another factory.
pub struct ResultReduceFactory<RF, E>(pub RF, pub PhantomData<E>);

impl<RF: ReduceFactory, E> ReduceFactory for ResultReduceFactory<RF, E> {
    type Reducer = ResultReducer<RF::Reducer, E>;

    open spec fn makes(&self, r: ResultReducer<RF::Reducer, E>) -> bool {
        r.inner() matches Ok(inner) && self.0.makes(inner)
    }

    fn make(&self) -> (r: ResultReducer<RF::Reducer, E>) {
        ResultReducer(Ok(self.0.make()))
    }
}

/// The reducer of fallible items: it folds the successful items into an
/// inner reducer, and the first failed item halts it for good and is what it
/// returns.
pub struct ResultReducer<R, E>(Result<R, E>);

impl<R, E> ResultReducer<R, E> {
    /// The inner reducer, or the failure that halted this one.
    pub closed spec fn inner(&self) -> Result<R, E> {
        self.0
    }

    /// The reducer that folds into `inner`, or the one halted by a failure.
    pub fn new(inner: Result<R, E>) -> (r: Self)
        ensures
            r.inner() == inner,
    {
        ResultReducer(inner)
    }

    /// The inner reducer, or the failure that has halted this one.
    pub fn into_inner(self) -> (inner: Result<R, E>)
        ensures
            inner == self.inner(),
    {
        self.0
    }
}

impl<R: Default, E> Default for ResultReducer<R, E> {
    fn default() -> (r: Self)
        ensures
            r.inner() matches Ok(inner) && call_ensures(R::default, (), inner),
    {
        Self(Ok(R::default()))
    }
}

impl<R: Reducer, E> Receiver for ResultReducer<R, E> {
    type Item = Result<R::Item, E>;

    type State = Result<R::State, E>;

    open spec fn state(&self) -> Result<R::State, E> {
        match self.inner() {
            Ok(r) => Ok(r.state()),
            Err(e) => Err(e),
        }
    }

    /// A successful item goes to the inner reducer. The first failure is
    /// kept; once halted, every offer is a no-op.
    open spec fn step(s: Result<R::State, E>, item: Result<R::Item, E>) -> Result<R::State, E> {
        match s {
            Ok(inner) => match item {
                Ok(i) => Ok(R::step(inner, i)),
                Err(e) => Err(e),
            },
            Err(first) => Err(first),
        }
    }

    open spec fn live(s: Result<R::State, E>) -> bool {
        match s {
            Ok(inner) => R::live(inner),
            Err(_) => false,
        }
    }
}

impl<R: Reducer, E> Reducer for ResultReducer<R, E> {
    type Output = Result<R::Output, E>;

    open spec fn yields(s: Result<R::State, E>, out: Result<R::Output, E>) -> bool {
        match (s, out) {
            (Ok(inner), Ok(o)) => R::yields(inner, o),
            (Err(e), Err(failure)) => failure == e,
            _ => false,
        }
    }

    #[inline]
    fn push(&mut self, item: Result<R::Item, E>) -> (more: bool) {
        match (&mut self.0, item) {
            (Ok(a), Ok(i)) => {
                return a.push(i);
            },
            (Ok(_), Err(e)) => {
                self.0 = Err(e);
            },
            (Err(_), _) => {},
        }
        false
    }

    fn ret(self) -> (out: Result<R::Output, E>) {
        match self.0 {
            Ok(r) => Ok(r.ret()),
            Err(e) => Err(e),
        }
    }
}

impl<R: ReducerA, E> ReducerA for ResultReducer<R, E> {

}

impl<T> FromDistributedIterator<T> for Vec<T> {
    type ReduceAFactory = DefaultReduceFactory<Self::ReduceA>;

    type ReduceA = PushReducer<T, Self>;

    type ReduceB = ExtendReducer<Self>;

    open spec fn start_a() -> Seq<T> {
        Seq::empty()
    }

    open spec fn start_b() -> Seq<T> {
        Seq::empty()
    }

    fn reducers() -> (r: (Self::ReduceAFactory, Self::ReduceB)) {
        let a: DefaultReduceFactory<PushReducer<T, Vec<T>>> = DefaultReduceFactory::default();
        let b: ExtendReducer<Vec<T>> = ExtendReducer::default();
        assert(b.state() =~= Seq::<T>::empty());
        assert forall|x: PushReducer<T, Vec<T>>| #[trigger] a.makes(x) implies x.state()
            == Seq::<T>::empty() by {
            assert(call_ensures(<PushReducer<T, Vec<T>> as Default>::default, (), x));
            assert(call_ensures(<Vec<T> as Default>::default, (), x.inner()));
            assert(x.state() =~= Seq::<T>::empty());
        }
        (a, b)
    }
}

impl<T> FromDistributedIterator<T> for VecDeque<T> {
    type ReduceAFactory = DefaultReduceFactory<Self::ReduceA>;

    type ReduceA = PushReducer<T, Vec<T>>;

    type ReduceB = IntoReducer<ExtendReducer<Vec<T>>, Self>;

    open spec fn start_a() -> Seq<T> {
        Seq::empty()
    }

    open spec fn start_b() -> Seq<T> {
        Seq::empty()
    }

    fn reducers() -> (r: (Self::ReduceAFactory, Self::ReduceB)) {
        let a: DefaultReduceFactory<PushReducer<T, Vec<T>>> = DefaultReduceFactory::default();
        let b: IntoReducer<ExtendReducer<Vec<T>>, VecDeque<T>> = IntoReducer::default();
        assert(b.state() =~= Seq::<T>::empty());
        assert forall|x: PushReducer<T, Vec<T>>| #[trigger] a.makes(x) implies x.state()
            == Seq::<T>::empty() by {
            assert(call_ensures(<PushReducer<T, Vec<T>> as Default>::default, (), x));
            assert(call_ensures(<Vec<T> as Default>::default, (), x.inner()));
            assert(x.state() =~= Seq::<T>::empty());
        }
        (a, b)
    }
}

impl<T: Eq + Hash, S: BuildHasher + Default> FromDistributedIterator<T> for HashSet<T, S> {
    type ReduceAFactory = DefaultReduceFactory<Self::ReduceA>;

    type ReduceA = PushReducer<T, Self>;

    type ReduceB = ExtendReducer<Self>;

    open spec fn start_a() -> Set<T> {
        Set::empty()
    }

    open spec fn start_b() -> Set<T> {
        Set::empty()
    }

    fn reducers() -> (r: (Self::ReduceAFactory, Self::ReduceB)) {
        let a: DefaultReduceFactory<PushReducer<T, HashSet<T, S>>> = DefaultReduceFactory::default();
        let b: ExtendReducer<HashSet<T, S>> = ExtendReducer::default();
        assert(b.state() =~= Set::<T>::empty());
        assert forall|x: PushReducer<T, HashSet<T, S>>| #[trigger] a.makes(x) implies x.state()
            == Set::<T>::empty() by {
            assert(call_ensures(<PushReducer<T, HashSet<T, S>> as Default>::default, (), x));
            assert(call_ensures(<HashSet<T, S> as Default>::default, (), x.inner()));
            assert(x.state() =~= Set::<T>::empty());
        }
        (a, b)
    }
}

impl<K: Eq + Hash, V, S: BuildHasher + Default> FromDistributedIterator<(K, V)> for HashMap<
    K,
    V,
    S,
> {
    type ReduceAFactory = DefaultReduceFactory<Self::ReduceA>;

    type ReduceA = PushReducer<(K, V), Self>;

    type ReduceB = ExtendReducer<Self>;

    open spec fn start_a() -> Map<K, V> {
        Map::empty()
    }

    open spec fn start_b() -> Map<K, V> {
        Map::empty()
    }

    fn reducers() -> (r: (Self::ReduceAFactory, Self::ReduceB)) {
        let a: DefaultReduceFactory<PushReducer<(K, V), HashMap<K, V, S>>> = DefaultReduceFactory::default();
        let b: ExtendReducer<HashMap<K, V, S>> = ExtendReducer::default();
        assert(b.state() =~= Map::<K, V>::empty());
        assert forall|x: PushReducer<(K, V), HashMap<K, V, S>>| #[trigger] a.makes(x) implies x.state()
            == Map::<K, V>::empty() by {
            assert(call_ensures(<PushReducer<(K, V), HashMap<K, V, S>> as Default>::default, (), x));
            assert(call_ensures(<HashMap<K, V, S> as Default>::default, (), x.inner()));
            assert(x.state() =~= Map::<K, V>::empty());
        }
        (a, b)
    }
}

impl<T: Ord> FromDistributedIterator<T> for BTreeSet<T> {
    type ReduceAFactory = DefaultReduceFactory<Self::ReduceA>;

    type ReduceA = PushReducer<T, Self>;

    type ReduceB = ExtendReducer<Self>;

    open spec fn start_a() -> Set<T> {
        Set::empty()
    }

    open spec fn start_b() -> Set<T> {
        Set::empty()
    }

    fn reducers() -> (r: (Self::ReduceAFactory, Self::ReduceB)) {
        let a: DefaultReduceFactory<PushReducer<T, BTreeSet<T>>> = DefaultReduceFactory::default();
        let b: ExtendReducer<BTreeSet<T>> = ExtendReducer::default();
        assert(b.state() =~= Set::<T>::empty());
        assert forall|x: PushReducer<T, BTreeSet<T>>| #[trigger] a.makes(x) implies x.state()
            == Set::<T>::empty() by {
            assert(call_ensures(<PushReducer<T, BTreeSet<T>> as Default>::default, (), x));
            assert(call_ensures(<BTreeSet<T> as Default>::default, (), x.inner()));
            assert(x.state() =~= Set::<T>::empty());
        }
        (a, b)
    }
}

impl<K: Ord, V> FromDistributedIterator<(K, V)> for BTreeMap<K, V> {
    type ReduceAFactory = DefaultReduceFactory<Self::ReduceA>;

    type ReduceA = PushReducer<(K, V), Self>;

    type ReduceB = ExtendReducer<Self>;

    open spec fn start_a() -> Map<K, V> {
        Map::empty()
    }

    open spec fn start_b() -> Map<K, V> {
        Map::empty()
    }

    fn reducers() -> (r: (Self::ReduceAFactory, Self::ReduceB)) {
        let a: DefaultReduceFactory<PushReducer<(K, V), BTreeMap<K, V>>> = DefaultReduceFactory::default();
        let b: ExtendReducer<BTreeMap<K, V>> = ExtendReducer::default();
        assert(b.state() =~= Map::<K, V>::empty());
        assert forall|x: PushReducer<(K, V), BTreeMap<K, V>>| #[trigger] a.makes(x) implies x.state()
            == Map::<K, V>::empty() by {
            assert(call_ensures(<PushReducer<(K, V), BTreeMap<K, V>> as Default>::default, (), x));
            assert(call_ensures(<BTreeMap<K, V> as Default>::default, (), x.inner()));
            assert(x.state() =~= Map::<K, V>::empty());
        }
        (a, b)
    }
}

impl FromDistributedIterator<char> for String {
    type ReduceAFactory = DefaultReduceFactory<Self::ReduceA>;

    type ReduceA = PushReducer<char, Self>;

    type ReduceB = PushReducer<Self>;

    open spec fn start_a() -> Seq<char> {
        Seq::empty()
    }

    open spec fn start_b() -> Seq<char> {
        Seq::empty()
    }

    fn reducers() -> (r: (Self::ReduceAFactory, Self::ReduceB)) {
        let a: DefaultReduceFactory<PushReducer<char, String>> = DefaultReduceFactory::default();
        let b: PushReducer<String> = PushReducer::default();
        assert(b.state() =~= Seq::<char>::empty());
        assert forall|x: PushReducer<char, String>| #[trigger] a.makes(x) implies x.state()
            == Seq::<char>::empty() by {
            assert(call_ensures(<PushReducer<char, String> as Default>::default, (), x));
            assert(call_ensures(<String as Default>::default, (), x.inner()));
            assert(x.state() =~= Seq::<char>::empty());
        }
        (a, b)
    }
}

impl FromDistributedIterator<String> for String {
    type ReduceAFactory = DefaultReduceFactory<Self::ReduceA>;

    type ReduceA = PushReducer<Self>;

    type ReduceB = PushReducer<Self>;

    open spec fn start_a() -> Seq<char> {
        Seq::empty()
    }

    open spec fn start_b() -> Seq<char> {
        Seq::empty()
    }

    fn reducers() -> (r: (Self::ReduceAFactory, Self::ReduceB)) {
        let a: DefaultReduceFactory<PushReducer<String, String>> = DefaultReduceFactory::default();
        let b: PushReducer<String> = PushReducer::default();
        assert(b.state() =~= Seq::<char>::empty());
        assert forall|x: PushReducer<String, String>| #[trigger] a.makes(x) implies x.state()
            == Seq::<char>::empty() by {
            assert(call_ensures(<PushReducer<String, String> as Default>::default, (), x));
            assert(call_ensures(<String as Default>::default, (), x.inner()));
            assert(x.state() =~= Seq::<char>::empty());
        }
        (a, b)
    }
}

impl FromDistributedIterator<()> for () {
    type ReduceAFactory = DefaultReduceFactory<Self::ReduceA>;

    type ReduceA = PushReducer<Self>;

    type ReduceB = PushReducer<Self>;

    open spec fn start_a() -> () {
        ()
    }

    open spec fn start_b() -> () {
        ()
    }

    fn reducers() -> (r: (Self::ReduceAFactory, Self::ReduceB)) {
        let a: DefaultReduceFactory<PushReducer<(), ()>> = DefaultReduceFactory::default();
        let b: PushReducer<()> = PushReducer::default();
        assert(b.state() =~= ());
        assert forall|x: PushReducer<(), ()>| #[trigger] a.makes(x) implies x.state()
            == () by {
            assert(call_ensures(<PushReducer<(), ()> as Default>::default, (), x));
            assert(call_ensures(<() as Default>::default, (), x.inner()));
            assert(x.state() =~= ());
        }
        (a, b)
    }
}

impl<T, C: FromDistributedIterator<T>> FromDistributedIterator<Option<T>> for Option<C> {
    type ReduceAFactory = OptionReduceFactory<C::ReduceAFactory>;

    type ReduceA = OptionReducer<C::ReduceA>;

    type ReduceB = OptionReducer<C::ReduceB>;

    open spec fn start_a() -> Option<<C::ReduceA as Receiver>::State> {
        Some(C::start_a())
    }

    open spec fn start_b() -> Option<<C::ReduceB as Receiver>::State> {
        Some(C::start_b())
    }

    fn reducers() -> (r: (Self::ReduceAFactory, Self::ReduceB)) {
        let (a, b) = C::reducers();
        (OptionReduceFactory(a), OptionReducer(Some(b)))
    }
}

impl<T, C: FromDistributedIterator<T>, E> FromDistributedIterator<Result<T, E>> for Result<C, E> {
    type ReduceAFactory = ResultReduceFactory<C::ReduceAFactory, E>;

    type ReduceA = ResultReducer<C::ReduceA, E>;

    type ReduceB = ResultReducer<C::ReduceB, E>;

    open spec fn start_a() -> Result<<C::ReduceA as Receiver>::State, E> {
        Ok(C::start_a())
    }

    open spec fn start_b() -> Result<<C::ReduceB as Receiver>::State, E> {
        Ok(C::start_b())
    }

    fn reducers() -> (r: (Self::ReduceAFactory, Self::ReduceB)) {
        let (a, b) = C::reducers();
        (ResultReduceFactory(a, PhantomData), ResultReducer(Ok(b)))
    }
}

} // verus!
