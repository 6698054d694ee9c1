//! Running a whole job in one place: every task into a fresh per-task
//! reducer, every per-task output into the cross-task reducer.
use vstd::prelude::*;
use crate::sink::{lemma_run_push, run, Receiver, Run};
use super::collect::FromDistributedIterator;
use super::reduction::{collects, task_outputs};
use super::{
    lemma_reduce_sink_run, lemma_stepped_ready, poll_reduce, Consumer, ConsumerAsync,
    DistributedIterator, Poll, ReduceFactory, ReduceSink, Reducer,
};

verus! {

/// Whether `c` is a result of the job over `tasks`, drawn in order, with
/// `outs` the outputs of the tasks that were run. Tasks are run until there
/// is none left or the cross-task reducer says stop; no task is run after
/// that.
pub open spec fn reduces<T, C: FromDistributedIterator<T>>(
    tasks: Seq<Seq<T>>,
    outs: Seq<<C::ReduceA as Reducer>::Output>,
    c: C,
) -> bool {
    let b = run::<C::ReduceB>(C::start_b(), outs);
    &&& outs.len() <= tasks.len()
    &&& task_outputs::<C::ReduceA>(C::start_a(), tasks.take(outs.len() as int), outs)
    &&& b.offered == outs.len()
    &&& b.more ==> outs.len() == tasks.len()
    &&& <C::ReduceB as Reducer>::yields(b.state, c)
}

/// Where the cross-task reducer never says stop, every task is run, and the
/// job's result is a result of collecting all the tasks.
pub proof fn lemma_reduces_all<T, C: FromDistributedIterator<T>>(
    tasks: Seq<Seq<T>>,
    outs: Seq<<C::ReduceA as Reducer>::Output>,
    c: C,
)
    requires
        forall|s: <C::ReduceB as Receiver>::State| #[trigger] <C::ReduceB as Receiver>::live(s),
        reduces::<T, C>(tasks, outs, c),
    ensures
        collects::<T, C>(tasks, outs, c),
{
    super::reduction::lemma_run_always_live::<C::ReduceB>(C::start_b(), outs);
    assert(tasks.take(tasks.len() as int) =~= tasks);
}

/// Runs the job of collecting `pipeline` into `C`, here and now: draws the
/// tasks in order, runs each into a fresh per-task reducer, and pushes what
/// that returns into the cross-task reducer, until there is no task left or
/// the cross-task reducer says stop.
///
/// A run that has to wait cannot be completed here: the job is given up
/// and nothing is returned. A pipeline whose runs never wait always gives a
/// result.
pub fn collect_ready<I: DistributedIterator, C: FromDistributedIterator<I::Item>>(
    pipeline: I,
) -> (r: Option<C>)
    ensures
        match r {
            Some(c) => exists|outs: Seq<<C::ReduceA as Reducer>::Output>| #[trigger]
                reduces::<I::Item, C>(pipeline.tasks(), outs, c),
            None => pipeline.may_wait(),
        },
{
    let mut rest = pipeline;
    let (factory, mut b) = C::reducers();
    let ghost tasks = pipeline.tasks();
    let ghost mut outs: Seq<<C::ReduceA as Reducer>::Output> = Seq::empty();
    proof {
        assert(tasks.skip(0) =~= tasks);
    }
    loop
        invariant
            tasks == pipeline.tasks(),
            rest.may_wait() == pipeline.may_wait(),
            outs.len() <= tasks.len(),
            rest.tasks() == tasks.skip(outs.len() as int),
            task_outputs::<C::ReduceA>(C::start_a(), tasks.take(outs.len() as int), outs),
            run::<C::ReduceB>(C::start_b(), outs) == (Run {
                state: b.state(),
                offered: outs.len(),
                more: true,
            }),
            forall|a: C::ReduceA| #[trigger] factory.makes(a) ==> a.state() == C::start_a(),
        decreases rest.tasks().len(),
    {
        match rest.next_task() {
            None => {
                let c: C = b.ret();
                let r = Some(c);
                assert(reduces::<I::Item, C>(pipeline.tasks(), outs, r->0));
                return r;
            },
            Some(task) => {
                let ghost n = outs.len() as int;
                let ghost items = task.items();
                assert(items == tasks[n]);
                let mut running = task.into_async();
                let a = factory.make();
                let (p, a) = poll_reduce(&mut running, a);
                match p {
                    Poll::Pending => {
                        return None;
                    },
                    Poll::Ready(done) => {
                        proof {
                            lemma_stepped_ready::<ReduceSink<C::ReduceA>>(
                                items,
                                running.pending(),
                                C::start_a(),
                                a.state(),
                                done,
                            );
                            lemma_reduce_sink_run::<C::ReduceA>(C::start_a(), items);
                        }
                        let out = a.ret();
                        let more = b.push(out);
                        proof {
                            let before = outs;
                            lemma_run_push::<C::ReduceB>(C::start_b(), before, out);
                            outs = before.push(out);
                            assert(tasks.skip(n).drop_first() =~= tasks.skip(n + 1));
                            assert forall|i: int| 0 <= i < n + 1 implies <C::ReduceA as Reducer>::yields(
                                run::<C::ReduceA>(C::start_a(), tasks.take(n + 1)[i]).state,
                                #[trigger] outs[i],
                            ) by {
                                if i < n {
                                    assert(tasks.take(n)[i] == tasks.take(n + 1)[i]);
                                    assert(outs[i] == before[i]);
                                }
                            }
                        }
                        if !more {
                            let c: C = b.ret();
                            let r = Some(c);
                            assert(reduces::<I::Item, C>(pipeline.tasks(), outs, r->0));
                            return r;
                        }
                    },
                }
            },
        }
    }
}

} // verus!
