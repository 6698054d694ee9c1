//! The mutate-in-place combinator: a decorator that changes each item on its
//! way to the sink and otherwise leaves the run as it is.
use vstd::prelude::*;
use crate::sink::{lemma_run_mapped, mapped_items, ItemMap, Receiver, Sink, SinkMap};
use super::{
    Consumer, ConsumerAsync, ConsumerMulti, ConsumerMultiAsync, DistributedIterator,
    DistributedIteratorMulti, Poll,
};

verus! {

/// An in-place transform that can be shipped to a worker: captured data and
/// an operation. A replica made for a task is the same transform.
pub trait UpdateFn<T>: Sized {
    /// The item as the transform leaves it.
    spec fn updated(&self, item: T) -> T;

    fn call(&self, item: &mut T)
        ensures
            *final(item) == self.updated(*old(item)),
    ;

    fn replicate(&self) -> (copy: Self)
        ensures
            copy == *self,
    ;
}

/// The items of a stream after the transform, one for one and in order.
pub open spec fn updated_items<F: UpdateFn<T>, T>(f: F, items: Seq<T>) -> Seq<T> {
    items.map_values(|item: T| f.updated(item))
}

/// The transform is a decorator and no more: it neither drops nor adds nor
/// reorders. Each item of the stream is there after it, transformed, at the
/// place where it was.
pub proof fn lemma_update_keeps_order<F: UpdateFn<T>, T>(f: F, items: Seq<T>)
    ensures
        updated_items(f, items).len() == items.len(),
        forall|i: int|
            0 <= i < items.len() ==> #[trigger] updated_items(f, items)[i] == f.updated(items[i]),
{
}

/// The transform of an [`Update`], borrowed as the map of a [`SinkMap`].
pub struct Updating<'a, F>(pub &'a F);

impl<'a, F: UpdateFn<T>, T> ItemMap<T> for Updating<'a, F> {
    type Output = T;

    open spec fn mapped(&self, item: T) -> T {
        self.0.updated(item)
    }

    fn map(&self, item: T) -> (out: T) {
        let mut item = item;
        self.0.call(&mut item);
        item
    }
}

/// A pipeline whose items are those of the inner pipeline after a transform.
#[must_use]
pub struct Update<I, F> {
    i: I,
    f: F,
}

impl<I, F> Update<I, F> {
    /// The pipeline that is decorated.
    pub closed spec fn inner(&self) -> I {
        self.i
    }

    /// The transform applied to each item.
    pub closed spec fn transform(&self) -> F {
        self.f
    }

    pub fn new(i: I, f: F) -> (u: Self)
        ensures
            u.inner() == i,
            u.transform() == f,
    {
        Self { i, f }
    }
}

impl<I: DistributedIterator, F: UpdateFn<I::Item>> DistributedIterator for Update<I, F> {
    type Item = I::Item;

    type Task = UpdateConsumer<I::Task, F>;

    open spec fn hint(&self) -> (usize, Option<usize>) {
        self.inner().hint()
    }

    open spec fn tasks(&self) -> Seq<Seq<I::Item>> {
        self.inner().tasks().map_values(|t: Seq<I::Item>| updated_items(self.transform(), t))
    }

    open spec fn may_wait(&self) -> bool {
        self.inner().may_wait()
    }

    fn size_hint(&self) -> (h: (usize, Option<usize>)) {
        self.i.size_hint()
    }

    /// Draws the inner pipeline's next task and pairs it with a replica of
    /// the transform. The pipeline keeps its transform, and the transform is
    /// applied to nothing here.
    fn next_task(&mut self) -> (t: Option<UpdateConsumer<I::Task, F>>)
        ensures
            final(self).transform() == old(self).transform(),
            final(self).inner().may_wait() == old(self).inner().may_wait(),
            match t {
                Some(task) => {
                    &&& task.transform() == old(self).transform()
                    &&& old(self).inner().tasks().len() > 0
                    &&& task.inner().items() == old(self).inner().tasks()[0]
                    &&& task.inner().may_wait() == old(self).inner().may_wait()
                    &&& final(self).inner().tasks() == old(self).inner().tasks().drop_first()
                },
                None => {
                    &&& old(self).inner().tasks().len() == 0
                    &&& final(self).inner().tasks() == old(self).inner().tasks()
                },
            },
    {
        let ghost before = self.i.tasks();
        let ghost f = self.f;
        match self.i.next_task() {
            Some(task) => {
                let f = self.f.replicate();
                proof {
                    assert(before.map_values(|t: Seq<I::Item>| updated_items(f, t)).drop_first()
                        =~= before.drop_first().map_values(|t: Seq<I::Item>| updated_items(f, t)));
                }
                Some(UpdateConsumer { task, f })
            },
            None => None,
        }
    }
}

impl<I: DistributedIteratorMulti<Source>, F: UpdateFn<I::Item>, Source> DistributedIteratorMulti<
    Source,
> for Update<I, F> {
    type Item = I::Item;

    type Task = UpdateConsumer<I::Task, F>;

    open spec fn expand(&self, source: Source) -> Seq<I::Item> {
        updated_items(self.transform(), self.inner().expand(source))
    }

    /// Builds the inner pipeline's task and pairs it with a replica of the
    /// transform.
    fn task(&self) -> (t: UpdateConsumer<I::Task, F>)
        ensures
            t.transform() == self.transform(),
            forall|x: Source| #[trigger] t.inner().expand(x) == self.inner().expand(x),
    {
        let task = self.i.task();
        let f = self.f.replicate();
        UpdateConsumer { task, f }
    }
}

/// The task of an [`Update`], in both its forms: the inner task and a replica
/// of the transform.
pub struct UpdateConsumer<T, F> {
    task: T,
    f: F,
}

impl<T, F> UpdateConsumer<T, F> {
    /// The task that is decorated.
    pub closed spec fn inner(&self) -> T {
        self.task
    }

    /// The transform applied to each item.
    pub closed spec fn transform(&self) -> F {
        self.f
    }

    /// The task put together from its parts, as on arrival at a worker.
    pub fn new(task: T, f: F) -> (c: Self)
        ensures
            c.inner() == task,
            c.transform() == f,
    {
        UpdateConsumer { task, f }
    }

    /// The parts of the task, as for sending it to a worker.
    pub fn into_parts(self) -> (parts: (T, F))
        ensures
            parts.0 == self.inner(),
            parts.1 == self.transform(),
    {
        (self.task, self.f)
    }
}

impl<C: Consumer, F: UpdateFn<C::Item>> Consumer for UpdateConsumer<C, F> {
    type Item = C::Item;

    type Async = UpdateConsumer<C::Async, F>;

    open spec fn items(&self) -> Seq<C::Item> {
        updated_items(self.transform(), self.inner().items())
    }

    open spec fn may_wait(&self) -> bool {
        self.inner().may_wait()
    }

    /// Turns the inner task into its running form and keeps the transform.
    fn into_async(self) -> (running: UpdateConsumer<C::Async, F>)
        ensures
            running.transform() == self.transform(),
            running.inner().pending() == self.inner().items(),
            running.inner().may_wait() == self.inner().may_wait(),
    {
        UpdateConsumer { task: self.task.into_async(), f: self.f }
    }
}

impl<C: ConsumerMulti<Source>, F: UpdateFn<C::Item>, Source> ConsumerMulti<
    Source,
> for UpdateConsumer<C, F> {
    type Item = C::Item;

    type Async = UpdateConsumer<C::Async, F>;

    open spec fn expand(&self, source: Source) -> Seq<C::Item> {
        updated_items(self.transform(), self.inner().expand(source))
    }

    /// Turns the inner task into its running form and keeps the transform.
    fn into_async(self) -> (running: UpdateConsumer<C::Async, F>)
        ensures
            running.transform() == self.transform(),
            running.inner().backlog() == Seq::<C::Item>::empty(),
            forall|x: Source| #[trigger] running.inner().expand(x) == self.inner().expand(x),
    {
        let running = UpdateConsumer { task: self.task.into_async(), f: self.f };
        assert(updated_items(running.f, Seq::<C::Item>::empty()) =~= Seq::<C::Item>::empty());
        running
    }
}

/// What a step of the inner task did to the decorated sink, it did, with the
/// transformed items, to the sink behind it.
pub proof fn lemma_stepped_updated<S: Sink, F: UpdateFn<S::Item>>(
    f: F,
    before: Seq<S::Item>,
    after: Seq<S::Item>,
    s0: S::State,
    t1: (S::State, Updating<F>),
    p: Poll<bool>,
)
    requires
        super::stepped::<SinkMap<S, Updating<F>, S::Item>>(
            before,
            after,
            (s0, Updating(&f)),
            t1,
            p,
        ),
    ensures
        super::stepped::<S>(updated_items(f, before), updated_items(f, after), s0, t1.0, p),
{
    let k = before.len() - after.len();
    let m = Updating(&f);
    lemma_run_mapped::<S, Updating<F>, S::Item>(s0, m, before.take(k));
    assert(mapped_items(m, before.take(k)) =~= updated_items(f, before).take(k));
    assert(updated_items(f, after) =~= updated_items(f, before).skip(k));
}

impl<C: ConsumerAsync, F: UpdateFn<C::Item>> ConsumerAsync for UpdateConsumer<C, F> {
    type Item = C::Item;

    open spec fn pending(&self) -> Seq<C::Item> {
        updated_items(self.transform(), self.inner().pending())
    }

    open spec fn may_wait(&self) -> bool {
        self.inner().may_wait()
    }

    /// Steps the inner task against the sink decorated with the transform.
    /// The sink sees each item that the inner task offers, transformed, in
    /// the inner task's order, and is offered nothing after it said stop.
    fn poll_run<S: Sink<Item = C::Item>>(&mut self, sink: S) -> (r: (Poll<bool>, S))
        ensures
            final(self).transform() == old(self).transform(),
    {
        let ghost before = self.task.pending();
        let mapped = SinkMap::new(sink, Updating(&self.f));
        let (p, mapped) = self.task.poll_run(mapped);
        let ghost t1 = mapped.state();
        let out = mapped.into_inner();
        proof {
            lemma_stepped_updated::<S, F>(
                self.f,
                before,
                self.task.pending(),
                sink.state(),
                t1,
                p,
            );
        }
        (p, out)
    }
}

impl<C: ConsumerMultiAsync<Source>, F: UpdateFn<C::Item>, Source> ConsumerMultiAsync<
    Source,
> for UpdateConsumer<C, F> {
    type Item = C::Item;

    open spec fn expand(&self, source: Source) -> Seq<C::Item> {
        updated_items(self.transform(), self.inner().expand(source))
    }

    open spec fn backlog(&self) -> Seq<C::Item> {
        updated_items(self.transform(), self.inner().backlog())
    }

    /// As in the single-source form, with the source value handed through to
    /// the inner task.
    fn poll_run<S: Sink<Item = C::Item>>(&mut self, source: Option<Source>, sink: S) -> (r: (
        Poll<bool>,
        S,
    ))
        ensures
            final(self).transform() == old(self).transform(),
    {
        let ghost given = source;
        let ghost work = match given {
            Some(x) => self.task.backlog() + self.task.expand(x),
            None => self.task.backlog(),
        };
        let mapped = SinkMap::new(sink, Updating(&self.f));
        let (p, mapped) = self.task.poll_run(source, mapped);
        let ghost t1 = mapped.state();
        let out = mapped.into_inner();
        proof {
            lemma_stepped_updated::<S, F>(
                self.f,
                work,
                self.task.backlog(),
                sink.state(),
                t1,
                p,
            );
            if let Some(x) = given {
                assert(updated_items(self.f, work) =~= updated_items(
                    self.f,
                    old(self).task.backlog(),
                ) + updated_items(self.f, old(self).task.expand(x)));
            }
        }
        (p, out)
    }
}

} // verus!
