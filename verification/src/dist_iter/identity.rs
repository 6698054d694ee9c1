//! The pipeline that hands each source value on as it is: the root of every
//! multi-source pipeline.
use vstd::prelude::*;
use crate::sink::{run, Sink};
use super::{ConsumerMulti, ConsumerMultiAsync, DistributedIteratorMulti, Poll};

verus! {

/// The multi-source pipeline whose items are the source values themselves.
pub struct Identity;

/// The task of [`Identity`], in both its forms.
pub struct IdentityTask;

impl<X> DistributedIteratorMulti<X> for Identity {
    type Item = X;

    type Task = IdentityTask;

    open spec fn expand(&self, source: X) -> Seq<X> {
        seq![source]
    }

    fn task(&self) -> (t: IdentityTask) {
        IdentityTask
    }
}

impl<X> ConsumerMulti<X> for IdentityTask {
    type Item = X;

    type Async = IdentityTask;

    open spec fn expand(&self, source: X) -> Seq<X> {
        seq![source]
    }

    fn into_async(self) -> (running: IdentityTask) {
        self
    }
}

impl<X> ConsumerMultiAsync<X> for IdentityTask {
    type Item = X;

    open spec fn expand(&self, source: X) -> Seq<X> {
        seq![source]
    }

    open spec fn backlog(&self) -> Seq<X> {
        Seq::empty()
    }

    fn poll_run<S: Sink<Item = X>>(&mut self, source: Option<X>, sink: S) -> (r: (Poll<bool>, S)) {
        let mut sink = sink;
        match source {
            Some(x) => {
                let ghost s0 = sink.state();
                let more = sink.offer(x);
                proof {
                    let work = Seq::<X>::empty() + seq![x];
                    assert(work.take(1) =~= seq![x]);
                    assert(work.skip(1) =~= Seq::<X>::empty());
                    assert(seq![x].drop_first() =~= Seq::<X>::empty());
                    reveal_with_fuel(run, 2);
                    assert(run::<S>(s0, seq![x]).state == S::step(s0, x));
                }
                (Poll::Ready(more), sink)
            },
            None => {
                proof {
                    assert(Seq::<X>::empty().take(0) =~= Seq::<X>::empty());
                }
                (Poll::Ready(true), sink)
            },
        }
    }
}

} // verus!
