//! Short-circuit: what the reducers of optional and of fallible items do
//! with the first item that is missing or failed, at both levels.
use vstd::prelude::*;
use crate::sink::{run, Receiver, Run};
use super::collect::{FromDistributedIterator, OptionReducer, ResultReducer};
use super::reduction::{collects, lemma_collect_vec, lemma_run_always_live};
use super::Reducer;

verus! {

/// The successful items in front of the first failure.
pub open spec fn ok_prefix<I, E>(items: Seq<Result<I, E>>) -> Seq<I>
    decreases items.len(),
{
    if items.len() == 0 {
        Seq::empty()
    } else {
        match items[0] {
            Ok(i) => seq![i] + ok_prefix(items.drop_first()),
            Err(_) => Seq::empty(),
        }
    }
}

/// The first failure among the items, if there is one.
pub open spec fn first_failure<I, E>(items: Seq<Result<I, E>>) -> Option<E> {
    let p = ok_prefix(items).len() as int;
    if p < items.len() {
        match items[p] {
            Err(e) => Some(e),
            Ok(_) => None,
        }
    } else {
        None
    }
}

/// The prefix that `ok_prefix` unwraps is made of successes, and a failure
/// follows it unless it is everything.
pub proof fn lemma_ok_prefix<I, E>(items: Seq<Result<I, E>>)
    ensures
        ok_prefix(items).len() <= items.len(),
        forall|j: int|
            0 <= j < ok_prefix(items).len() ==> #[trigger] items[j] == Ok::<I, E>(
                ok_prefix(items)[j],
            ),
        ok_prefix(items).len() < items.len() ==> items[ok_prefix(items).len() as int] is Err,
        first_failure(items) is None <==> ok_prefix(items).len() == items.len(),
    decreases items.len(),
{
    if items.len() > 0 {
        let rest = items.drop_first();
        lemma_ok_prefix(rest);
        match items[0] {
            Ok(i) => {
                let p = ok_prefix(items);
                assert(p == seq![i] + ok_prefix(rest));
                assert forall|j: int| 0 <= j < p.len() implies #[trigger] items[j] == Ok::<I, E>(
                    p[j],
                ) by {
                    if j > 0 {
                        assert(rest[j - 1] == items[j]);
                        assert(p[j] == ok_prefix(rest)[j - 1]);
                    }
                }
                if p.len() < items.len() {
                    assert(rest[ok_prefix(rest).len() as int] == items[p.len() as int]);
                }
            },
            Err(_) => {},
        }
    }
}

/// Where the first failure stands, `ok_prefix` ends.
pub proof fn lemma_ok_prefix_until<I, E>(items: Seq<Result<I, E>>, i: int)
    requires
        0 <= i < items.len(),
        items[i] is Err,
        forall|j: int| 0 <= j < i ==> (#[trigger] items[j]) is Ok,
    ensures
        ok_prefix(items).len() == i,
        first_failure(items) == Some(items[i]->Err_0),
    decreases i,
{
    if i > 0 {
        let rest = items.drop_first();
        assert(items[0] is Ok);
        assert forall|j: int| 0 <= j < i - 1 implies (#[trigger] rest[j]) is Ok by {
            assert(rest[j] == items[j + 1]);
        }
        lemma_ok_prefix_until(rest, i - 1);
    }
}

/// What a run of a reducer of fallible items over `items` leaves, told by
/// the inner reducer's run over the successes in front of the first failure:
/// the inner reducer stopped the run, or everything was successful, or the
/// first failure halted the run and is all that is kept.
pub open spec fn result_run<R: Reducer, E>(s: R::State, items: Seq<Result<R::Item, E>>) -> Run<
    Result<R::State, E>,
> {
    let p = ok_prefix(items);
    let inner = run::<R>(s, p);
    if !inner.more {
        Run { state: Ok(inner.state), offered: inner.offered, more: false }
    } else if p.len() == items.len() {
        Run { state: Ok(inner.state), offered: p.len(), more: true }
    } else {
        Run { state: Err(items[p.len() as int]->Err_0), offered: p.len() + 1, more: false }
    }
}

/// A run of a reducer of fallible items is as `result_run` tells.
pub proof fn lemma_run_result<R: Reducer, E>(s: R::State, items: Seq<Result<R::Item, E>>)
    ensures
        run::<ResultReducer<R, E>>(Ok(s), items) == result_run::<R, E>(s, items),
    decreases items.len(),
{
    if items.len() > 0 {
        let rest = items.drop_first();
        match items[0] {
            Ok(i) => {
                let s1 = R::step(s, i);
                let p = ok_prefix(items);
                assert(p[0] == i);
                assert(p.drop_first() =~= ok_prefix(rest));
                lemma_ok_prefix(rest);
                if R::live(s1) {
                    lemma_run_result::<R, E>(s1, rest);
                    if ok_prefix(rest).len() < rest.len() {
                        assert(rest[ok_prefix(rest).len() as int] == items[p.len() as int]);
                    }
                }
            },
            Err(e) => {},
        }
    }
}

/// Offering to a reducer that a failure has halted is a no-op: it keeps the
/// failure and answers "stop".
pub proof fn lemma_run_halted<R: Reducer, E>(e: E, items: Seq<Result<R::Item, E>>)
    requires
        items.len() > 0,
    ensures
        run::<ResultReducer<R, E>>(Err(e), items) == (Run {
            state: Err::<R::State, E>(e),
            offered: 1,
            more: false,
        }),
{
}

/// Short-circuit: the first failure halts the run. The reducer keeps exactly
/// that failure, and nothing that the task emits after it is offered; the
/// inner reducer has seen the successes in front of it and no more.
pub proof fn lemma_result_short_circuit<R: Reducer, E>(
    s: R::State,
    items: Seq<Result<R::Item, E>>,
    i: int,
)
    requires
        0 <= i < items.len(),
        items[i] is Err,
        forall|j: int| 0 <= j < i ==> (#[trigger] items[j]) is Ok,
        run::<R>(s, ok_prefix(items)).more,
    ensures
        ok_prefix(items).len() == i,
        run::<ResultReducer<R, E>>(Ok(s), items) == (Run {
            state: Err::<R::State, E>(items[i]->Err_0),
            offered: (i + 1) as nat,
            more: false,
        }),
{
    lemma_ok_prefix_until(items, i);
    lemma_run_result::<R, E>(s, items);
}

/// The first failure of the first task, in the order of arrival, that has
/// one.
pub open spec fn job_failure<T, E>(tasks: Seq<Seq<Result<T, E>>>) -> Option<E>
    decreases tasks.len(),
{
    if tasks.len() == 0 {
        None
    } else {
        match first_failure(tasks[0]) {
            Some(e) => Some(e),
            None => job_failure(tasks.drop_first()),
        }
    }
}

/// The successes of each task in front of its first failure.
pub open spec fn oks<T, E>(tasks: Seq<Seq<Result<T, E>>>) -> Seq<Seq<T>> {
    tasks.map_values(|t: Seq<Result<T, E>>| ok_prefix(t))
}

/// The per-task outputs fail where the tasks fail, with the same failure.
proof fn lemma_outputs_fail_with_tasks<T, O, E>(tasks: Seq<Seq<Result<T, E>>>, outs: Seq<Result<O, E>>)
    requires
        outs.len() == tasks.len(),
        forall|i: int|
            0 <= i < tasks.len() ==> match first_failure(tasks[i]) {
                Some(e) => (#[trigger] outs[i]) == Err::<O, E>(e),
                None => outs[i] is Ok,
            },
    ensures
        first_failure(outs) == job_failure(tasks),
    decreases tasks.len(),
{
    lemma_ok_prefix(outs);
    if tasks.len() > 0 {
        let trest = tasks.drop_first();
        let orest = outs.drop_first();
        assert forall|i: int| 0 <= i < trest.len() implies match first_failure(trest[i]) {
            Some(e) => (#[trigger] orest[i]) == Err::<O, E>(e),
            None => orest[i] is Ok,
        } by {
            assert(orest[i] == outs[i + 1]);
            assert(trest[i] == tasks[i + 1]);
        }
        lemma_outputs_fail_with_tasks(trest, orest);
        lemma_ok_prefix(orest);
        match first_failure(tasks[0]) {
            Some(e) => {
                assert(outs[0] == Err::<O, E>(e));
            },
            None => {
                assert(outs[0] is Ok);
                let p = ok_prefix(orest).len() as int;
                assert(ok_prefix(outs).len() == p + 1);
                if p < orest.len() {
                    assert(orest[p] == outs[p + 1]);
                }
            },
        }
    }
}

/// Collecting fallible items into a result-wrapped container whose own
/// reducers never stop. If any task fails, the result is exactly the first
/// failure of the first failing task to arrive. Otherwise it wraps what
/// collecting the unwrapped items gives.
pub proof fn lemma_collect_result<T, C: FromDistributedIterator<T>, E>(
    tasks: Seq<Seq<Result<T, E>>>,
    outs: Seq<Result<<C::ReduceA as Reducer>::Output, E>>,
    c: Result<C, E>,
)
    requires
        forall|s: <C::ReduceA as Receiver>::State| #[trigger] <C::ReduceA as Receiver>::live(s),
        forall|s: <C::ReduceB as Receiver>::State| #[trigger] <C::ReduceB as Receiver>::live(s),
        collects::<Result<T, E>, Result<C, E>>(tasks, outs, c),
    ensures
        match job_failure(tasks) {
            Some(e) => c == Err::<C, E>(e),
            None => c matches Ok(v) && collects::<T, C>(oks(tasks), ok_prefix(outs), v),
        },
{
    assert forall|i: int| 0 <= i < tasks.len() implies match first_failure(tasks[i]) {
        Some(e) => (#[trigger] outs[i]) == Err::<<C::ReduceA as Reducer>::Output, E>(e),
        None => outs[i] matches Ok(o) && <C::ReduceA as Reducer>::yields(
            run::<C::ReduceA>(C::start_a(), ok_prefix(tasks[i])).state,
            o,
        ),
    } by {
        lemma_run_result::<C::ReduceA, E>(C::start_a(), tasks[i]);
        lemma_run_always_live::<C::ReduceA>(C::start_a(), ok_prefix(tasks[i]));
        lemma_ok_prefix(tasks[i]);
    }
    lemma_outputs_fail_with_tasks(tasks, outs);
    lemma_run_result::<C::ReduceB, E>(C::start_b(), outs);
    lemma_run_always_live::<C::ReduceB>(C::start_b(), ok_prefix(outs));
    lemma_ok_prefix(outs);
    if job_failure(tasks) is None {
        let inner = ok_prefix(outs);
        assert forall|i: int| 0 <= i < oks(tasks).len() implies <C::ReduceA as Reducer>::yields(
            run::<C::ReduceA>(C::start_a(), oks(tasks)[i]).state,
            #[trigger] inner[i],
        ) by {
            assert(outs[i] == Ok::<<C::ReduceA as Reducer>::Output, E>(inner[i]));
        }
    }
}

/// Collecting fallible rows into a result that wraps a vector. If any task
/// fails, the result is exactly the first failure of the first failing task
/// to arrive; with one failure in the whole job, that failure, whatever the
/// order of arrival. Without a failure, the rows of all tasks, task by task
/// in the order of arrival.
pub proof fn lemma_collect_result_vec<T, E>(
    tasks: Seq<Seq<Result<T, E>>>,
    outs: Seq<Result<Vec<T>, E>>,
    c: Result<Vec<T>, E>,
)
    requires
        collects::<Result<T, E>, Result<Vec<T>, E>>(tasks, outs, c),
    ensures
        match job_failure(tasks) {
            Some(e) => c == Err::<Vec<T>, E>(e),
            None => c matches Ok(v) && v@ == oks(tasks).flatten(),
        },
{
    lemma_collect_result::<T, Vec<T>, E>(tasks, outs, c);
    if job_failure(tasks) is None {
        lemma_collect_vec::<T>(oks(tasks), ok_prefix(outs), c->Ok_0);
    }
}

/// The failure of a job is a failure of one of its tasks: the first failure
/// of a task before which, in the order of arrival, no task fails.
pub proof fn lemma_job_failure<T, E>(tasks: Seq<Seq<Result<T, E>>>)
    ensures
        match job_failure(tasks) {
            Some(e) => exists|i: int|
                0 <= i < tasks.len() && #[trigger] first_failure(tasks[i]) == Some(e)
                    && forall|j: int| 0 <= j < i ==> first_failure(#[trigger] tasks[j]) is None,
            None => forall|i: int| 0 <= i < tasks.len() ==> first_failure(#[trigger] tasks[i]) is None,
        },
    decreases tasks.len(),
{
    if tasks.len() > 0 {
        let rest = tasks.drop_first();
        lemma_job_failure(rest);
        match first_failure(tasks[0]) {
            Some(e) => {
                assert(first_failure(tasks[0]) == Some(e));
            },
            None => {
                match job_failure(rest) {
                    Some(e) => {
                        let i = choose|i: int|
                            0 <= i < rest.len() && #[trigger] first_failure(rest[i]) == Some(e)
                                && forall|j: int|
                                0 <= j < i ==> first_failure(#[trigger] rest[j]) is None;
                        assert(rest[i] == tasks[i + 1]);
                        assert forall|j: int| 0 <= j < i + 1 implies first_failure(
                            #[trigger] tasks[j],
                        ) is None by {
                            if j > 0 {
                                assert(rest[j - 1] == tasks[j]);
                            }
                        }
                        assert(first_failure(tasks[i + 1]) == Some(e));
                    },
                    None => {
                        assert forall|i: int| 0 <= i < tasks.len() implies first_failure(
                            #[trigger] tasks[i],
                        ) is None by {
                            if i > 0 {
                                assert(rest[i - 1] == tasks[i]);
                            }
                        }
                    },
                }
            },
        }
    }
}

/// The items that are there in front of the first missing one.
pub open spec fn present_prefix<I>(items: Seq<Option<I>>) -> Seq<I>
    decreases items.len(),
{
    if items.len() == 0 {
        Seq::empty()
    } else {
        match items[0] {
            Some(i) => seq![i] + present_prefix(items.drop_first()),
            None => Seq::empty(),
        }
    }
}

/// What a run of a reducer of optional items over `items` leaves, told by
/// the inner reducer's run over the items in front of the first missing one.
pub open spec fn option_run<R: Reducer>(s: R::State, items: Seq<Option<R::Item>>) -> Run<
    Option<R::State>,
> {
    let p = present_prefix(items);
    let inner = run::<R>(s, p);
    if !inner.more {
        Run { state: Some(inner.state), offered: inner.offered, more: false }
    } else if p.len() == items.len() {
        Run { state: Some(inner.state), offered: p.len(), more: true }
    } else {
        Run { state: None, offered: p.len() + 1, more: false }
    }
}

/// The prefix that `present_prefix` unwraps is made of items that are
/// there, and a missing one follows it unless it is everything.
pub proof fn lemma_present_prefix<I>(items: Seq<Option<I>>)
    ensures
        present_prefix(items).len() <= items.len(),
        forall|j: int|
            0 <= j < present_prefix(items).len() ==> #[trigger] items[j] == Some(
                present_prefix(items)[j],
            ),
        present_prefix(items).len() < items.len() ==> items[present_prefix(
            items,
        ).len() as int] is None,
    decreases items.len(),
{
    if items.len() > 0 {
        let rest = items.drop_first();
        lemma_present_prefix(rest);
        match items[0] {
            Some(i) => {
                let p = present_prefix(items);
                assert(p == seq![i] + present_prefix(rest));
                assert forall|j: int| 0 <= j < p.len() implies #[trigger] items[j] == Some(
                    p[j],
                ) by {
                    if j > 0 {
                        assert(rest[j - 1] == items[j]);
                        assert(p[j] == present_prefix(rest)[j - 1]);
                    }
                }
                if p.len() < items.len() {
                    assert(rest[present_prefix(rest).len() as int] == items[p.len() as int]);
                }
            },
            None => {},
        }
    }
}

/// A run of a reducer of optional items is as `option_run` tells: the first
/// missing item halts it, and nothing behind that item is offered.
pub proof fn lemma_run_option<R: Reducer>(s: R::State, items: Seq<Option<R::Item>>)
    ensures
        run::<OptionReducer<R>>(Some(s), items) == option_run::<R>(s, items),
    decreases items.len(),
{
    if items.len() > 0 {
        let rest = items.drop_first();
        match items[0] {
            Some(i) => {
                let s1 = R::step(s, i);
                let p = present_prefix(items);
                assert(p[0] == i);
                assert(p.drop_first() =~= present_prefix(rest));
                if R::live(s1) {
                    lemma_run_option::<R>(s1, rest);
                }
            },
            None => {},
        }
    }
}

/// Whether every item of every task is there.
pub open spec fn all_present<T>(tasks: Seq<Seq<Option<T>>>) -> bool {
    forall|i: int|
        0 <= i < tasks.len() ==> present_prefix(#[trigger] tasks[i]).len() == tasks[i].len()
}

/// The items of each task in front of its first missing one.
pub open spec fn presents<T>(tasks: Seq<Seq<Option<T>>>) -> Seq<Seq<T>> {
    tasks.map_values(|t: Seq<Option<T>>| present_prefix(t))
}

/// The per-task outputs are missing where the tasks miss an item.
proof fn lemma_outputs_missing_with_tasks<T, O>(tasks: Seq<Seq<Option<T>>>, outs: Seq<Option<O>>)
    requires
        outs.len() == tasks.len(),
        forall|i: int|
            0 <= i < tasks.len() ==> ((#[trigger] outs[i]) is Some <==> present_prefix(
                tasks[i],
            ).len() == tasks[i].len()),
    ensures
        present_prefix(outs).len() == outs.len() <==> all_present(tasks),
    decreases tasks.len(),
{
    lemma_present_prefix(outs);
    if tasks.len() > 0 {
        let trest = tasks.drop_first();
        let orest = outs.drop_first();
        assert forall|i: int| 0 <= i < trest.len() implies ((#[trigger] orest[i]) is Some
            <==> present_prefix(trest[i]).len() == trest[i].len()) by {
            assert(orest[i] == outs[i + 1]);
            assert(trest[i] == tasks[i + 1]);
        }
        lemma_outputs_missing_with_tasks(trest, orest);
        if all_present(tasks) {
            assert forall|i: int| 0 <= i < trest.len() implies present_prefix(
                #[trigger] trest[i],
            ).len() == trest[i].len() by {
                assert(trest[i] == tasks[i + 1]);
            }
        }
        if all_present(trest) && outs[0] is Some {
            assert forall|i: int| 0 <= i < tasks.len() implies present_prefix(
                #[trigger] tasks[i],
            ).len() == tasks[i].len() by {
                if i > 0 {
                    assert(trest[i - 1] == tasks[i]);
                }
            }
        }
    }
}

/// Collecting optional items into an optional container whose own reducers
/// never stop. If any item of any task is missing, the result is missing.
/// Otherwise it wraps what collecting the unwrapped items gives.
pub proof fn lemma_collect_option<T, C: FromDistributedIterator<T>>(
    tasks: Seq<Seq<Option<T>>>,
    outs: Seq<Option<<C::ReduceA as Reducer>::Output>>,
    c: Option<C>,
)
    requires
        forall|s: <C::ReduceA as Receiver>::State| #[trigger] <C::ReduceA as Receiver>::live(s),
        forall|s: <C::ReduceB as Receiver>::State| #[trigger] <C::ReduceB as Receiver>::live(s),
        collects::<Option<T>, Option<C>>(tasks, outs, c),
    ensures
        if all_present(tasks) {
            c matches Some(v) && collects::<T, C>(presents(tasks), present_prefix(outs), v)
        } else {
            c is None
        },
{
    assert forall|i: int| 0 <= i < tasks.len() implies if present_prefix(tasks[i]).len()
        == tasks[i].len() {
        (#[trigger] outs[i]) matches Some(o) && <C::ReduceA as Reducer>::yields(
            run::<C::ReduceA>(C::start_a(), present_prefix(tasks[i])).state,
            o,
        )
    } else {
        outs[i] is None
    } by {
        lemma_run_option::<C::ReduceA>(C::start_a(), tasks[i]);
        lemma_run_always_live::<C::ReduceA>(C::start_a(), present_prefix(tasks[i]));
        lemma_present_prefix(tasks[i]);
    }
    lemma_outputs_missing_with_tasks(tasks, outs);
    lemma_run_option::<C::ReduceB>(C::start_b(), outs);
    lemma_run_always_live::<C::ReduceB>(C::start_b(), present_prefix(outs));
    lemma_present_prefix(outs);
    if all_present(tasks) {
        let inner = present_prefix(outs);
        assert forall|i: int| 0 <= i < presents(tasks).len() implies <C::ReduceA as Reducer>::yields(
            run::<C::ReduceA>(C::start_a(), presents(tasks)[i]).state,
            #[trigger] inner[i],
        ) by {
            assert(outs[i] == Some(inner[i]));
        }
    }
}

} // verus!
