//! The push-based receiver protocol: "offer an item, learn whether to go on".
use vstd::prelude::*;

verus! {

/// A receiver of items, seen as a state machine over a mathematical state.
///
/// `step` is the state reached by accepting one item, and `live` tells whether
/// the receiver, having reached a state, asks for more.
pub trait Receiver: Sized {
    type Item;

    type State;

    /// The state that the receiver is in.
    spec fn state(&self) -> Self::State;

    /// The state reached from `s` by accepting `item`.
    spec fn step(s: Self::State, item: Self::Item) -> Self::State;

    /// Whether a receiver that has reached `s` asks for more.
    spec fn live(s: Self::State) -> bool;
}

/// A receiver lent to a task for one run. The task hands its items over one
/// by one and stops when it is told to.
pub trait Sink: Receiver {
    /// Hands `item` over; `false` asks the producer to stop.
    fn offer(&mut self, item: Self::Item) -> (more: bool)
        ensures
            final(self).state() == Self::step(old(self).state(), item),
            more == Self::live(final(self).state()),
    ;
}

/// What a run leaves behind: the receiver's state, how many items were
/// offered, and whether every offer was answered with "go on".
pub struct Run<St> {
    pub state: St,
    pub offered: nat,
    pub more: bool,
}

/// The state after accepting all of `items`, whatever the answers.
pub open spec fn fold<R: Receiver>(s: R::State, items: Seq<R::Item>) -> R::State
    decreases items.len(),
{
    if items.len() == 0 {
        s
    } else {
        fold::<R>(R::step(s, items[0]), items.drop_first())
    }
}

/// A run offers the items in order and stops after the first offer that is
/// answered with "stop".
pub open spec fn run<R: Receiver>(s: R::State, items: Seq<R::Item>) -> Run<R::State>
    decreases items.len(),
{
    if items.len() == 0 {
        Run { state: s, offered: 0, more: true }
    } else {
        let s1 = R::step(s, items[0]);
        if R::live(s1) {
            let rest = run::<R>(s1, items.drop_first());
            Run { state: rest.state, offered: rest.offered + 1, more: rest.more }
        } else {
            Run { state: s1, offered: 1, more: false }
        }
    }
}

/// A run never offers more than there is, and one that was never told to stop
/// has offered everything.
pub proof fn lemma_run_bounds<R: Receiver>(s: R::State, items: Seq<R::Item>)
    ensures
        run::<R>(s, items).offered <= items.len(),
        run::<R>(s, items).more ==> run::<R>(s, items).offered == items.len(),
        !run::<R>(s, items).more ==> run::<R>(s, items).offered >= 1,
    decreases items.len(),
{
    if items.len() > 0 {
        lemma_run_bounds::<R>(R::step(s, items[0]), items.drop_first());
    }
}

/// The receiver has seen exactly the items that were offered: its state is
/// the fold over that prefix, and over nothing behind it.
pub proof fn lemma_run_is_fold<R: Receiver>(s: R::State, items: Seq<R::Item>)
    ensures
        run::<R>(s, items).state == fold::<R>(
            s,
            items.take(run::<R>(s, items).offered as int),
        ),
    decreases items.len(),
{
    lemma_run_bounds::<R>(s, items);
    let n = run::<R>(s, items).offered as int;
    if items.len() == 0 {
        assert(items.take(0) =~= items);
    } else {
        let s1 = R::step(s, items[0]);
        let rest = items.drop_first();
        assert(items.take(n)[0] == items[0]);
        assert(items.take(n).drop_first() =~= rest.take(n - 1));
        if R::live(s1) {
            lemma_run_is_fold::<R>(s1, rest);
        } else {
            assert(fold::<R>(s1, rest.take(0)) == s1);
        }
        assert(fold::<R>(s, items.take(n)) == fold::<R>(s1, rest.take(n - 1)));
    }
}

/// In a run, every offer but the last was answered with "go on": the first
/// "stop" is the last thing that the run hears, and no offer follows it.
pub proof fn lemma_run_stops_at_first_stop<R: Receiver>(s: R::State, items: Seq<R::Item>, j: int)
    requires
        1 <= j <= run::<R>(s, items).offered,
    ensures
        j <= items.len(),
        j < run::<R>(s, items).offered ==> R::live(fold::<R>(s, items.take(j))),
        j == run::<R>(s, items).offered ==> R::live(fold::<R>(s, items.take(j))) == run::<R>(
            s,
            items,
        ).more,
    decreases items.len(),
{
    lemma_run_bounds::<R>(s, items);
    let s1 = R::step(s, items[0]);
    let rest = items.drop_first();
    assert(items.take(j)[0] == items[0]);
    assert(items.take(j).drop_first() =~= rest.take(j - 1));
    if j == 1 {
        assert(fold::<R>(s1, rest.take(0)) == s1);
        if R::live(s1) && run::<R>(s, items).offered == 1 {
            assert(run::<R>(s1, rest).offered == 0);
            assert(rest.len() == 0);
        }
    } else {
        lemma_run_stops_at_first_stop::<R>(s1, rest, j - 1);
    }
}

/// Folding splits at any point.
pub proof fn lemma_fold_split<R: Receiver>(s: R::State, items: Seq<R::Item>, k: int)
    requires
        0 <= k <= items.len(),
    ensures
        fold::<R>(s, items) == fold::<R>(fold::<R>(s, items.take(k)), items.skip(k)),
    decreases k,
{
    if k == 0 {
        assert(items.skip(0) =~= items);
    } else {
        let s1 = R::step(s, items[0]);
        let rest = items.drop_first();
        lemma_fold_split::<R>(s1, rest, k - 1);
        assert(items.take(k).drop_first() =~= rest.take(k - 1));
        assert(items.take(k)[0] == items[0]);
        assert(items.skip(k) =~= rest.skip(k - 1));
    }
}

/// Folding one more item.
pub proof fn lemma_fold_push<R: Receiver>(s: R::State, items: Seq<R::Item>, item: R::Item)
    ensures
        fold::<R>(s, items.push(item)) == R::step(fold::<R>(s, items), item),
{
    let all = items.push(item);
    let k = items.len() as int;
    lemma_fold_split::<R>(s, all, k);
    assert(all.take(k) =~= items);
    assert(all.skip(k) =~= seq![item]);
    assert(seq![item].drop_first() =~= Seq::<R::Item>::empty());
    assert(fold::<R>(fold::<R>(s, items), seq![item]) == R::step(fold::<R>(s, items), item)) by {
        reveal_with_fuel(fold, 2);
    }
}

/// A run that has gone through `k` items without being told to stop goes on
/// from there as a run of its own.
pub proof fn lemma_run_split<R: Receiver>(s: R::State, items: Seq<R::Item>, k: int)
    requires
        0 <= k <= items.len(),
        run::<R>(s, items.take(k)).more,
    ensures
        run::<R>(s, items.take(k)).offered == k,
        run::<R>(s, items).state == run::<R>(
            run::<R>(s, items.take(k)).state,
            items.skip(k),
        ).state,
        run::<R>(s, items).offered == k + run::<R>(
            run::<R>(s, items.take(k)).state,
            items.skip(k),
        ).offered,
        run::<R>(s, items).more == run::<R>(
            run::<R>(s, items.take(k)).state,
            items.skip(k),
        ).more,
    decreases k,
{
    if k == 0 {
        assert(items.skip(0) =~= items);
    } else {
        let s1 = R::step(s, items[0]);
        let rest = items.drop_first();
        assert(items.take(k)[0] == items[0]);
        assert(items.take(k).drop_first() =~= rest.take(k - 1));
        assert(items.skip(k) =~= rest.skip(k - 1));
        lemma_run_split::<R>(s1, rest, k - 1);
    }
}

/// A run that was told to stop at its `k`-th offer is the whole run, however
/// many items follow.
pub proof fn lemma_run_stops<R: Receiver>(s: R::State, items: Seq<R::Item>, k: int)
    requires
        0 <= k <= items.len(),
        run::<R>(s, items.take(k)).offered == k,
        !run::<R>(s, items.take(k)).more,
    ensures
        run::<R>(s, items) == run::<R>(s, items.take(k)),
    decreases k,
{
    if k > 0 {
        let s1 = R::step(s, items[0]);
        let rest = items.drop_first();
        assert(items.take(k)[0] == items[0]);
        assert(items.take(k).drop_first() =~= rest.take(k - 1));
        if R::live(s1) {
            lemma_run_stops::<R>(s1, rest, k - 1);
        }
    }
}

/// Extending a run that was not told to stop by one more offer.
pub proof fn lemma_run_push<R: Receiver>(s: R::State, items: Seq<R::Item>, item: R::Item)
    requires
        run::<R>(s, items).more,
    ensures
        run::<R>(s, items.push(item)).state == R::step(run::<R>(s, items).state, item),
        run::<R>(s, items.push(item)).offered == items.len() + 1,
        run::<R>(s, items.push(item)).more == R::live(
            R::step(run::<R>(s, items).state, item),
        ),
{
    let all = items.push(item);
    let k = items.len() as int;
    assert(all.take(k) =~= items);
    assert(all.skip(k) =~= seq![item]);
    assert(seq![item].drop_first() =~= Seq::<R::Item>::empty());
    lemma_run_split::<R>(s, all, k);
    reveal_with_fuel(run, 2);
}

/// A function object from items to items: captured data and an operation,
/// the same on every worker it is shipped to.
pub trait ItemMap<A>: Sized {
    type Output;

    /// What the item becomes.
    spec fn mapped(&self, item: A) -> Self::Output;

    fn map(&self, item: A) -> (out: Self::Output)
        ensures
            out == self.mapped(item),
    ;
}

/// A sink decorator: applies a transform to each item, then forwards it.
/// It neither drops nor reorders items, and stops exactly when the sink
/// behind it says so.
pub struct SinkMap<S, F, A> {
    sink: S,
    f: F,
    marker: core::marker::PhantomData<A>,
}

impl<S, F, A> SinkMap<S, F, A> {
    /// The sink that is decorated.
    pub closed spec fn inner(&self) -> S {
        self.sink
    }

    /// The transform applied to each item.
    pub closed spec fn transform(&self) -> F {
        self.f
    }

    /// Decorates `sink` with the transform `f`.
    pub fn new(sink: S, f: F) -> (m: Self)
        ensures
            m.inner() == sink,
            m.transform() == f,
    {
        SinkMap { sink, f, marker: core::marker::PhantomData }
    }

    /// Gives the decorated sink back.
    pub fn into_inner(self) -> (sink: S)
        ensures
            sink == self.inner(),
    {
        self.sink
    }
}

impl<S: Sink, F: ItemMap<A, Output = S::Item>, A> Receiver for SinkMap<S, F, A> {
    type Item = A;

    type State = (S::State, F);

    open spec fn state(&self) -> (S::State, F) {
        (self.inner().state(), self.transform())
    }

    open spec fn step(s: (S::State, F), item: A) -> (S::State, F) {
        (S::step(s.0, s.1.mapped(item)), s.1)
    }

    open spec fn live(s: (S::State, F)) -> bool {
        S::live(s.0)
    }
}

impl<S: Sink, F: ItemMap<A, Output = S::Item>, A> Sink for SinkMap<S, F, A> {
    fn offer(&mut self, item: A) -> (more: bool) {
        let out = self.f.map(item);
        self.sink.offer(out)
    }
}

/// The items as the sink behind a `SinkMap` sees them.
pub open spec fn mapped_items<F: ItemMap<A>, A>(f: F, items: Seq<A>) -> Seq<F::Output> {
    items.map_values(|item: A| f.mapped(item))
}

/// A run through a `SinkMap` is the run of the transformed items on the sink
/// behind it: as many offers, the same answers, in the same order.
pub proof fn lemma_run_mapped<S: Sink, F: ItemMap<A, Output = S::Item>, A>(
    s: S::State,
    f: F,
    items: Seq<A>,
)
    ensures
        run::<SinkMap<S, F, A>>((s, f), items) == (Run {
            state: (run::<S>(s, mapped_items(f, items)).state, f),
            offered: run::<S>(s, mapped_items(f, items)).offered,
            more: run::<S>(s, mapped_items(f, items)).more,
        }),
    decreases items.len(),
{
    if items.len() > 0 {
        let s1 = S::step(s, f.mapped(items[0]));
        assert(mapped_items(f, items).drop_first() =~= mapped_items(f, items.drop_first()));
        assert(mapped_items(f, items)[0] == f.mapped(items[0]));
        lemma_run_mapped::<S, F, A>(s1, f, items.drop_first());
    }
}

} // verus!
