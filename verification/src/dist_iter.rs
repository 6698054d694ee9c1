//! Pipelines, tasks and reducers: the interfaces between a pipeline
//! description, the workers that run its tasks, and the coordinator that
//! combines what they return.
use vstd::prelude::*;
use crate::sink::{run, Receiver, Run, Sink};

pub mod collect;
pub mod containers;
pub mod identity;
pub mod local;
pub mod partitions;
pub mod reduction;
pub mod short_circuit;
pub mod targets;
pub mod update;

verus! {

/// The answer of one step of a running task.
pub enum Poll<T> {
    /// The run is complete.
    Ready(T),
    /// Progress depends on an outside event; the caller steps again later.
    Pending,
}

/// What one step of a running task may do to a sink.
///
/// Of the items `before` that it had still to offer, the task has offered a
/// prefix, in order, and keeps the rest `after`. `s0` and `s1` are the sink's
/// states around the step. No offer follows one that was answered with
/// "stop"; a complete run reports whether every offer was answered with "go
/// on", and says so only when nothing is left.
pub open spec fn stepped<S: Sink>(
    before: Seq<S::Item>,
    after: Seq<S::Item>,
    s0: S::State,
    s1: S::State,
    p: Poll<bool>,
) -> bool {
    let k = before.len() - after.len();
    &&& 0 <= k
    &&& after == before.skip(k)
    &&& run::<S>(s0, before.take(k)) == (Run {
        state: s1,
        offered: k as nat,
        more: match p {
            Poll::Ready(more) => more,
            Poll::Pending => true,
        },
    })
    &&& p == Poll::Ready(true) ==> after.len() == 0
}

/// A task in its running form: a suspendable computation that offers its
/// items to a sink.
pub trait ConsumerAsync: Sized {
    type Item;

    /// The items still to be offered, in the order of offering.
    spec fn pending(&self) -> Seq<Self::Item>;

    /// Whether progress of the run may depend on an outside event. A run
    /// that never waits completes in one step.
    spec fn may_wait(&self) -> bool;

    /// Advances the run by one step. The sink is handed in for the step and
    /// handed back with it.
    fn poll_run<S: Sink<Item = Self::Item>>(&mut self, sink: S) -> (r: (Poll<bool>, S))
        ensures
            stepped::<S>(old(self).pending(), final(self).pending(), sink.state(), r.1.state(), r.0),
            final(self).may_wait() == old(self).may_wait(),
            !old(self).may_wait() ==> r.0 is Ready,
    ;
}

/// A task: everything needed to process one partition, with no reference
/// back to the pipeline that it was drawn from.
pub trait Consumer: Sized {
    type Item;

    type Async: ConsumerAsync<Item = Self::Item>;

    /// The items that a run of the task offers.
    spec fn items(&self) -> Seq<Self::Item>;

    /// Whether a run of the task may wait for an outside event.
    spec fn may_wait(&self) -> bool;

    fn into_async(self) -> (running: Self::Async)
        ensures
            running.pending() == self.items(),
            running.may_wait() == self.may_wait(),
    ;
}

/// A lazy pipeline description that draws tasks, one per partition.
pub trait DistributedIterator: Sized {
    type Item;

    type Task: Consumer<Item = Self::Item>;

    /// The advisory bounds on the number of items left.
    spec fn hint(&self) -> (usize, Option<usize>);

    /// The item streams of the tasks still to be drawn, in drawing order.
    spec fn tasks(&self) -> Seq<Seq<Self::Item>>;

    /// Whether runs of the pipeline's tasks may wait for an outside event.
    spec fn may_wait(&self) -> bool;

    /// Reads the hint. It takes the pipeline by shared reference: what the
    /// next draw yields is the same before and after.
    fn size_hint(&self) -> (h: (usize, Option<usize>))
        ensures
            h == self.hint(),
    ;

    /// Draws the next task, or nothing once the source is exhausted.
    fn next_task(&mut self) -> (t: Option<Self::Task>)
        ensures
            final(self).may_wait() == old(self).may_wait(),
            match t {
                Some(task) => {
                    &&& old(self).tasks().len() > 0
                    &&& task.items() == old(self).tasks()[0]
                    &&& task.may_wait() == old(self).may_wait()
                    &&& final(self).tasks() == old(self).tasks().drop_first()
                },
                None => old(self).tasks().len() == 0 && final(self).tasks() == old(self).tasks(),
            },
    ;
}

/// Reads the hint, then draws. The hint is read-only: the draw is that of
/// the pipeline as it was before the hint was read.
pub fn next_task_after_hint<I: DistributedIterator>(pipeline: &mut I) -> (r: (
    (usize, Option<usize>),
    Option<I::Task>,
))
    ensures
        r.0 == old(pipeline).hint(),
        final(pipeline).may_wait() == old(pipeline).may_wait(),
        match r.1 {
            Some(task) => {
                &&& old(pipeline).tasks().len() > 0
                &&& task.items() == old(pipeline).tasks()[0]
                &&& task.may_wait() == old(pipeline).may_wait()
                &&& final(pipeline).tasks() == old(pipeline).tasks().drop_first()
            },
            None => old(pipeline).tasks().len() == 0 && final(pipeline).tasks() == old(
                pipeline,
            ).tasks(),
        },
{
    let hint = pipeline.size_hint();
    let task = pipeline.next_task();
    (hint, task)
}

/// A running task that is driven by source values supplied from outside,
/// one with each step, rather than by a stream of its own.
pub trait ConsumerMultiAsync<Source>: Sized {
    type Item;

    /// The items that one source value gives rise to.
    spec fn expand(&self, source: Source) -> Seq<Self::Item>;

    /// Items of earlier source values that are still to be offered.
    spec fn backlog(&self) -> Seq<Self::Item>;

    /// Advances by one step: the task has to offer what was left from earlier
    /// steps, then what the source value, if there is one, expands to.
    fn poll_run<S: Sink<Item = Self::Item>>(&mut self, source: Option<Source>, sink: S) -> (r: (
        Poll<bool>,
        S,
    ))
        ensures
            stepped::<S>(
                match source {
                    Some(x) => old(self).backlog() + old(self).expand(x),
                    None => old(self).backlog(),
                },
                final(self).backlog(),
                sink.state(),
                r.1.state(),
                r.0,
            ),
            forall|x: Source| #[trigger] final(self).expand(x) == old(self).expand(x),
    ;
}

/// A multi-source task.
pub trait ConsumerMulti<Source>: Sized {
    type Item;

    type Async: ConsumerMultiAsync<Source, Item = Self::Item>;

    /// The items that one source value gives rise to.
    spec fn expand(&self, source: Source) -> Seq<Self::Item>;

    fn into_async(self) -> (running: Self::Async)
        ensures
            running.backlog() == Seq::<Self::Item>::empty(),
            forall|x: Source| #[trigger] running.expand(x) == self.expand(x),
    ;
}

/// A pipeline description that is driven by an outside source. Its task is
/// built directly, not drawn from a stream that runs out.
pub trait DistributedIteratorMulti<Source>: Sized {
    type Item;

    type Task: ConsumerMulti<Source, Item = Self::Item>;

    /// The items that one source value gives rise to.
    spec fn expand(&self, source: Source) -> Seq<Self::Item>;

    fn task(&self) -> (t: Self::Task)
        ensures
            forall|x: Source| #[trigger] t.expand(x) == self.expand(x),
    ;
}

/// An accumulation state machine: it folds items into a partial result and
/// is finished once, by a consuming operation.
pub trait Reducer: Receiver {
    type Output;

    /// Whether `out` is what finishing in state `s` may return.
    spec fn yields(s: Self::State, out: Self::Output) -> bool;

    /// Accepts the next item; `false` says that no further item is wanted.
    fn push(&mut self, item: Self::Item) -> (more: bool)
        ensures
            final(self).state() == Self::step(old(self).state(), item),
            more == Self::live(final(self).state()),
    ;

    /// Finishes and hands out the result.
    fn ret(self) -> (out: Self::Output)
        ensures
            Self::yields(self.state(), out),
    ;
}

/// A reducer of the per-task level. It runs on a worker, so its output
/// travels to the coordinator.
pub trait ReducerA: Reducer {

}

/// Makes a fresh per-task reducer, with no context.
pub trait ReduceFactory {
    type Reducer: Reducer;

    /// Whether `r` is a reducer as this factory makes them.
    spec fn makes(&self, r: Self::Reducer) -> bool;

    fn make(&self) -> (r: Self::Reducer)
        ensures
            self.makes(r),
    ;
}

/// A reduction over a pipeline: the pipeline, the factory of the per-task
/// reducers, and the cross-task reducer.
pub trait DistributedReducer<I: DistributedIteratorMulti<Source>, Source, B>: Sized {
    type ReduceAFactory: ReduceFactory<Reducer = Self::ReduceA>;

    type ReduceA: ReducerA<Item = I::Item>;

    type ReduceB: Reducer<Item = <Self::ReduceA as Reducer>::Output, Output = B>;

    /// The pipeline that `reducers` hands out.
    spec fn pipeline(&self) -> I;

    /// The state in which the per-task reducers start.
    spec fn start_a() -> <Self::ReduceA as Receiver>::State;

    /// The state in which the cross-task reducer starts.
    spec fn start_b() -> <Self::ReduceB as Receiver>::State;

    fn reducers(self) -> (r: (I, Self::ReduceAFactory, Self::ReduceB))
        ensures
            r.0 == self.pipeline(),
            forall|a: Self::ReduceA| #[trigger] r.1.makes(a) ==> a.state() == Self::start_a(),
            r.2.state() == Self::start_b(),
    ;
}

/// A reducer lent as the sink of one task's run.
pub struct ReduceSink<R> {
    reducer: R,
}

impl<R> ReduceSink<R> {
    /// The reducer inside.
    pub closed spec fn inner(&self) -> R {
        self.reducer
    }

    /// The sink that feeds `reducer`.
    pub fn new(reducer: R) -> (sink: Self)
        ensures
            sink.inner() == reducer,
    {
        ReduceSink { reducer }
    }

    /// Gives the reducer back.
    pub fn into_inner(self) -> (reducer: R)
        ensures
            reducer == self.inner(),
    {
        self.reducer
    }
}

impl<R: Reducer> Receiver for ReduceSink<R> {
    type Item = R::Item;

    type State = R::State;

    open spec fn state(&self) -> R::State {
        self.inner().state()
    }

    open spec fn step(s: R::State, item: R::Item) -> R::State {
        R::step(s, item)
    }

    open spec fn live(s: R::State) -> bool {
        R::live(s)
    }
}

impl<R: Reducer> Sink for ReduceSink<R> {
    fn offer(&mut self, item: R::Item) -> (more: bool) {
        self.reducer.push(item)
    }
}

/// Steps add up: a step that had to wait, and the step that follows it, are
/// together one step. However often a run is suspended, the sink sees the
/// items once each, in order, and nothing after it said stop.
pub proof fn lemma_stepped_again<S: Sink>(
    before: Seq<S::Item>,
    between: Seq<S::Item>,
    after: Seq<S::Item>,
    s0: S::State,
    s1: S::State,
    s2: S::State,
    p: Poll<bool>,
)
    requires
        stepped::<S>(before, between, s0, s1, Poll::Pending),
        stepped::<S>(between, after, s1, s2, p),
    ensures
        stepped::<S>(before, after, s0, s2, p),
{
    let k1 = before.len() - between.len();
    let k2 = between.len() - after.len();
    let both = before.take(k1 + k2);
    assert(both.take(k1) =~= before.take(k1));
    assert(both.skip(k1) =~= between.take(k2));
    assert(after =~= before.skip(k1 + k2));
    crate::sink::lemma_run_split::<S>(s0, both, k1);
}

/// A step that completes the run has made the whole run: the sink has seen
/// what a run over all the items offers, and nothing else.
pub proof fn lemma_stepped_ready<S: Sink>(
    before: Seq<S::Item>,
    after: Seq<S::Item>,
    s0: S::State,
    s1: S::State,
    more: bool,
)
    requires
        stepped::<S>(before, after, s0, s1, Poll::Ready(more)),
    ensures
        run::<S>(s0, before) == (Run {
            state: s1,
            offered: (before.len() - after.len()) as nat,
            more,
        }),
{
    let k = before.len() - after.len();
    if more {
        assert(before.take(k) =~= before);
    } else {
        crate::sink::lemma_run_stops::<S>(s0, before, k);
    }
}

/// One step of a task's run into a reducer: the reducer is lent to the task
/// as its sink and comes back with the step's answer.
pub fn poll_reduce<C: ConsumerAsync, R: Reducer<Item = C::Item>>(task: &mut C, reducer: R) -> (r: (
    Poll<bool>,
    R,
))
    ensures
        stepped::<ReduceSink<R>>(
            old(task).pending(),
            final(task).pending(),
            reducer.state(),
            r.1.state(),
            r.0,
        ),
        final(task).may_wait() == old(task).may_wait(),
        !old(task).may_wait() ==> r.0 is Ready,
{
    let (p, sink) = task.poll_run(ReduceSink::new(reducer));
    (p, sink.into_inner())
}

/// A run on a reducer's sink is a run on the reducer.
pub proof fn lemma_reduce_sink_run<R: Reducer>(s: R::State, items: Seq<R::Item>)
    ensures
        run::<ReduceSink<R>>(s, items) == run::<R>(s, items),
    decreases items.len(),
{
    if items.len() > 0 {
        lemma_reduce_sink_run::<R>(R::step(s, items[0]), items.drop_first());
    }
}

} // verus!
