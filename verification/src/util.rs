//! Small parts that the pipelines and sources are put together from.
use core::marker::PhantomData;
use vstd::prelude::*;
use vstd::std_specs::cmp::PartialEqSpecImpl;
use vstd::std_specs::iter::IteratorSpec;
use crate::dist_iter::{Consumer, ConsumerAsync, DistributedIterator, Poll};
use crate::sink::Sink;

verus! {

/// A fallible collection, to be expanded into a stream of fallible items:
/// the items of the collection, each a success, or the one failure.
pub struct ResultExpand<T, E>(pub Result<T, E>);

/// The stream that a [`ResultExpand`] expands into.
pub enum ResultExpandIter<T, E> {
    /// The items still to come.
    Items(T),
    /// The failure, until it has been handed out.
    Failure(Option<E>),
}

/// What a fallible sequence expands into.
pub open spec fn expanded<X, E>(r: Result<Seq<X>, E>) -> Seq<Result<X, E>> {
    match r {
        Ok(items) => items.map_values(|x: X| Ok::<X, E>(x)),
        Err(e) => seq![Err::<X, E>(e)],
    }
}

impl<T, E> ResultExpandIter<T, E> {
    pub fn new(t: Result<T, E>) -> (r: Self)
        ensures
            r == (match t {
                Ok(t) => Self::Items(t),
                Err(e) => Self::Failure(Some(e)),
            }),
    {
        match t {
            Ok(t) => Self::Items(t),
            Err(e) => Self::Failure(Some(e)),
        }
    }
}

impl<T: Iterator, E> ResultExpandIter<T, E> {
    /// The next item: the next of the inner stream as a success, or the
    /// failure, once.
    pub fn next(&mut self) -> (r: Option<Result<T::Item, E>>)
        ensures
            match *old(self) {
                Self::Items(t) => (*final(self)) matches Self::Items(t2) && (
                t.obeys_prophetic_iter_laws() ==> if t.remaining().len() > 0 {
                    r == Some(Ok::<T::Item, E>(t.remaining()[0])) && t2.remaining()
                        == t.remaining().drop_first()
                } else {
                    r is None && t2.remaining() == t.remaining()
                }),
                Self::Failure(e) => *final(self) == Self::Failure(None) && r == (match e {
                    Some(e) => Some(Err::<T::Item, E>(e)),
                    None => None,
                }),
            },
    {
        match self {
            Self::Items(t) => match t.next() {
                Some(x) => Some(Ok(x)),
                None => None,
            },
            Self::Failure(e) => match e.take() {
                Some(e) => Some(Err(e)),
                None => None,
            },
        }
    }
}

impl<X, E> ResultExpand<Vec<X>, E> {
    /// The stream of the vector's items, or of the one failure.
    pub fn into_iter(self) -> (r: ResultExpandIter<std::vec::IntoIter<X>, E>)
        ensures
            match self.0 {
                Ok(v) => r matches ResultExpandIter::Items(it) && it.remaining() == v@,
                Err(e) => r == ResultExpandIter::<std::vec::IntoIter<X>, E>::Failure(Some(e)),
            },
    {
        match self.0 {
            Ok(t) => {
                let it = t.into_iter();
                proof {
                    vstd::std_specs::vec::axiom_spec_into_iter(t);
                }
                ResultExpandIter::Items(it)
            },
            Err(e) => ResultExpandIter::Failure(Some(e)),
        }
    }

    /// All that the stream would hand out, at once.
    pub fn expand(self) -> (out: Vec<Result<X, E>>)
        ensures
            out@ == expanded(
                match self.0 {
                    Ok(v) => Ok(v@),
                    Err(e) => Err(e),
                },
            ),
    {
        let mut out: Vec<Result<X, E>> = Vec::new();
        match self.0 {
            Ok(v) => {
                let ghost all = v@;
                let mut rest = crate::dist_iter::partitions::reversed(v);
                assert(rest@.reverse() =~= all);
                while rest.len() > 0
                    invariant
                        rest.len() <= all.len(),
                        rest@ == all.reverse().take(rest.len() as int),
                        out@ == expanded(Ok::<Seq<X>, E>(all.take(all.len() - rest.len()))),
                    decreases rest.len(),
                {
                    let ghost k = all.len() - rest.len();
                    let x = rest.pop().unwrap();
                    assert(x == all[k]);
                    out.push(Ok(x));
                    assert(all.take(k + 1) =~= all.take(k).push(x));
                    assert(out@ =~= expanded(Ok::<Seq<X>, E>(all.take(k + 1))));
                }
                assert(all.take(all.len() as int) =~= all);
            },
            Err(e) => {
                out.push(Err(e));
            },
        }
        out
    }
}

/// An I/O failure, kept as the text that describes it. Two failures are
/// equal when they read the same.
#[derive(Debug)]
pub struct IoError {
    message: String,
}

impl Clone for IoError {
    fn clone(&self) -> (r: Self)
        ensures
            r.text() == self.text(),
    {
        IoError { message: self.message.clone() }
    }
}

impl IoError {
    /// The text of the failure.
    pub closed spec fn text(&self) -> Seq<char> {
        self.message@
    }

    /// The failure that reads `message`.
    pub fn new(message: String) -> (e: Self)
        ensures
            e.text() == message@,
    {
        IoError { message }
    }

    /// The text of the failure.
    pub fn message(&self) -> (m: &str)
        ensures
            m@ == self.text(),
    {
        self.message.as_str()
    }

    /// The text of the failure, as `Display` would give it.
    pub fn to_string(&self) -> (m: String)
        ensures
            m@ == self.text(),
    {
        self.message.clone()
    }
}

impl PartialEq for IoError {
    fn eq(&self, other: &Self) -> (r: bool) {
        self.message == other.message
    }
}

impl PartialEqSpecImpl for IoError {
    open spec fn obeys_eq_spec() -> bool {
        true
    }

    open spec fn eq_spec(&self, other: &Self) -> bool {
        self.text() == other.text()
    }
}

/// A pipeline of the threads of one process: it draws tasks as a
/// distributed pipeline does, to be run without leaving the process.
pub trait ParallelStream: Sized {
    type Item;

    type Task: Consumer<Item = Self::Item>;

    /// The advisory bounds on the number of items left.
    spec fn hint(&self) -> (usize, Option<usize>);

    /// The item streams of the tasks still to be drawn, in drawing order.
    spec fn tasks(&self) -> Seq<Seq<Self::Item>>;

    /// Whether runs of the pipeline's tasks may wait for an outside event.
    spec fn may_wait(&self) -> bool;

    fn size_hint(&self) -> (h: (usize, Option<usize>))
        ensures
            h == self.hint(),
    ;

    fn next_task(&mut self) -> (t: Option<Self::Task>)
        ensures
            final(self).may_wait() == old(self).may_wait(),
            match t {
                Some(task) => {
                    &&& old(self).tasks().len() > 0
                    &&& task.items() == old(self).tasks()[0]
                    &&& task.may_wait() == old(self).may_wait()
                    &&& final(self).tasks() == old(self).tasks().drop_first()
                },
                None => old(self).tasks().len() == 0 && final(self).tasks() == old(self).tasks(),
            },
    ;
}

/// A distributed pipeline, taken as a pipeline of one process: the same
/// hints, the same tasks.
pub struct DistParStream<S>(S);

impl<S> DistParStream<S> {
    /// The distributed pipeline inside.
    pub closed spec fn inner(&self) -> S {
        self.0
    }

    pub fn new(s: S) -> (p: Self)
        ensures
            p.inner() == s,
    {
        DistParStream(s)
    }
}

impl<S: DistributedIterator> ParallelStream for DistParStream<S> {
    type Item = S::Item;

    type Task = S::Task;

    open spec fn hint(&self) -> (usize, Option<usize>) {
        self.inner().hint()
    }

    open spec fn tasks(&self) -> Seq<Seq<S::Item>> {
        self.inner().tasks()
    }

    open spec fn may_wait(&self) -> bool {
        self.inner().may_wait()
    }

    fn size_hint(&self) -> (h: (usize, Option<usize>)) {
        self.0.size_hint()
    }

    fn next_task(&mut self) -> (t: Option<S::Task>) {
        self.0.next_task()
    }
}

/// A pipeline type to name where a pipeline of `T` must be named and none
/// runs. It holds nothing and draws no task.
pub struct ImplDistributedStream<T>(PhantomData<T>);

impl<T> ImplDistributedStream<T> {
    /// Stands in for `pipeline`, which is dropped.
    pub fn new<U: DistributedIterator<Item = T>>(pipeline: U) -> (s: Self)
        ensures
            DistributedIterator::tasks(&s).len() == 0,
    {
        Self(PhantomData)
    }
}

impl<T> DistributedIterator for ImplDistributedStream<T> {
    type Item = T;

    type Task = ImplTask<T>;

    open spec fn hint(&self) -> (usize, Option<usize>) {
        (0, Some(0usize))
    }

    open spec fn tasks(&self) -> Seq<Seq<T>> {
        Seq::empty()
    }

    open spec fn may_wait(&self) -> bool {
        false
    }

    fn size_hint(&self) -> (h: (usize, Option<usize>)) {
        (0, Some(0))
    }

    fn next_task(&mut self) -> (t: Option<ImplTask<T>>) {
        None
    }
}

impl<T> ParallelStream for ImplDistributedStream<T> {
    type Item = T;

    type Task = ImplTask<T>;

    open spec fn hint(&self) -> (usize, Option<usize>) {
        (0, Some(0usize))
    }

    open spec fn tasks(&self) -> Seq<Seq<T>> {
        Seq::empty()
    }

    open spec fn may_wait(&self) -> bool {
        false
    }

    fn size_hint(&self) -> (h: (usize, Option<usize>)) {
        (0, Some(0))
    }

    fn next_task(&mut self) -> (t: Option<ImplTask<T>>) {
        None
    }
}

/// The task type of [`ImplDistributedStream`]: a task without items.
pub struct ImplTask<T>(PhantomData<T>);

impl<T> Consumer for ImplTask<T> {
    type Item = T;

    type Async = ImplTask<T>;

    open spec fn items(&self) -> Seq<T> {
        Seq::empty()
    }

    open spec fn may_wait(&self) -> bool {
        false
    }

    fn into_async(self) -> (running: ImplTask<T>) {
        self
    }
}

impl<T> ConsumerAsync for ImplTask<T> {
    type Item = T;

    open spec fn pending(&self) -> Seq<T> {
        Seq::empty()
    }

    open spec fn may_wait(&self) -> bool {
        false
    }

    fn poll_run<S: Sink<Item = T>>(&mut self, sink: S) -> (r: (Poll<bool>, S)) {
        assert(Seq::<T>::empty().take(0) =~= Seq::<T>::empty());
        assert(Seq::<T>::empty().skip(0) =~= Seq::<T>::empty());
        (Poll::Ready(true), sink)
    }
}

/// A value under a lifetime that it does not borrow from.
pub struct Wrapper<'a, T>(PhantomData<&'a ()>, T);

impl<'a, T> Wrapper<'a, T> {
    /// The value inside.
    pub closed spec fn inner(&self) -> T {
        self.1
    }

    pub fn new(t: T) -> (w: Self)
        ensures
            w.inner() == t,
    {
        Self(PhantomData, t)
    }

    pub fn into_inner(self) -> (t: T)
        ensures
            t == self.inner(),
    {
        self.1
    }
}

impl<'a, T> core::hash::Hash for Wrapper<'a, T> {
    /// Feeds nothing to the hasher: wrappers hash alike, whatever they
    /// hold.
    fn hash<H: core::hash::Hasher>(&self, state: &mut H)
        ensures
            *final(state) == *old(state),
    {
    }
}

/// A value that is to be shown whatever its type: by its own rendering
/// where it has one, else by the name of its type. The library carries the
/// value; rendering is the caller's.
pub struct Debug<T>(pub T);

/// A conversion that is there only between a type and itself: the check
/// that two types are one is made when the call is compiled, not when it
/// runs.
pub trait Coerce<B>: Sized {
    /// The value as a `B`, where the two types are one.
    spec fn coerced(self) -> Option<B>;

    fn coerce(self) -> (b: Option<B>)
        ensures
            b == self.coerced(),
    ;
}

impl<A> Coerce<A> for A {
    open spec fn coerced(self) -> Option<A> {
        Some(self)
    }

    fn coerce(self) -> (b: Option<A>) {
        Some(self)
    }
}

/// The value as a `B`, if `A` and `B` are one type.
pub fn try_type_coerce<A: Coerce<B>, B>(a: A) -> (b: Option<B>)
    ensures
        b == a.coerced(),
{
    a.coerce()
}

/// The value as a `B`. The two types must be one: a mismatch is a fault
/// of the program, not of its input.
pub fn type_coerce<A: Coerce<B>, B>(a: A) -> (b: B)
    requires
        a.coerced() is Some,
    ensures
        Some(b) == a.coerced(),
{
    match try_type_coerce(a) {
        Some(b) => b,
        None => {
            proof {
                assert(false);
            }
            unreached()
        },
    }
}

} // verus!
