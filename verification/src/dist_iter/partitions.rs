//! A pipeline over partitions held in memory: one task per partition.
use vstd::prelude::*;
use crate::sink::{lemma_run_push, run, Run, Sink};
use super::{Consumer, ConsumerAsync, DistributedIterator, Poll};

verus! {

/// The elements of `v`, last first.
pub fn reversed<T>(v: Vec<T>) -> (r: Vec<T>)
    ensures
        r@ == v@.reverse(),
{
    let mut v = v;
    let ghost all = v@;
    let mut r: Vec<T> = Vec::new();
    while v.len() > 0
        invariant
            v@ == all.take(v.len() as int),
            v.len() <= all.len(),
            r.len() + v.len() == all.len(),
            forall|i: int| 0 <= i < r.len() ==> r[i] == all[all.len() - 1 - i],
        decreases v.len(),
    {
        let x = v.pop().unwrap();
        r.push(x);
    }
    assert(r@ =~= all.reverse());
    r
}

/// The number of items in all of `parts`.
pub open spec fn total_len<T>(parts: Seq<Seq<T>>) -> nat
    decreases parts.len(),
{
    if parts.len() == 0 {
        0
    } else {
        total_len(parts.drop_last()) + parts.last().len()
    }
}

/// A pipeline over partitions held in memory.
pub struct Partitions<T> {
    /// The partitions still to be drawn, the next one last.
    rest: Vec<Vec<T>>,
}

/// The task of one partition.
pub struct PartitionTask<T> {
    items: Vec<T>,
}

/// The run of one partition's task.
pub struct PartitionRun<T> {
    /// The items still to be offered, the next one last.
    rest: Vec<T>,
}

impl<T> Partitions<T> {
    /// The partitions still to be drawn, in drawing order.
    pub closed spec fn parts(&self) -> Seq<Seq<T>> {
        self.rest@.reverse().map_values(|p: Vec<T>| p@)
    }

    /// A pipeline that draws one task for each of `parts`, in order.
    pub fn new(parts: Vec<Vec<T>>) -> (p: Self)
        ensures
            p.parts() == parts@.map_values(|v: Vec<T>| v@),
    {
        let rest = reversed(parts);
        assert(rest@.reverse() =~= parts@);
        Partitions { rest }
    }
}

impl<T> DistributedIterator for Partitions<T> {
    type Item = T;

    type Task = PartitionTask<T>;

    open spec fn hint(&self) -> (usize, Option<usize>) {
        let n = total_len(self.parts());
        if n <= usize::MAX {
            (n as usize, Some(n as usize))
        } else {
            (usize::MAX, None)
        }
    }

    open spec fn tasks(&self) -> Seq<Seq<T>> {
        self.parts()
    }

    /// What is held in memory is there.
    open spec fn may_wait(&self) -> bool {
        false
    }

    fn size_hint(&self) -> (h: (usize, Option<usize>)) {
        let n = self.rest.len();
        let ghost parts = self.parts();
        let mut i: usize = 0;
        let mut sum: usize = 0;
        while i < n
            invariant
                n == self.rest.len(),
                parts == self.parts(),
                i <= n,
                sum == total_len(parts.skip(n - i)),
            decreases n - i,
        {
            let len = self.rest[i].len();
            proof {
                let a = parts.skip(n - i - 1);
                assert(parts[n - i - 1] == self.rest[i as int]@);
                lemma_total_len_front(a);
                assert(a.drop_first() =~= parts.skip(n - i));
            }
            match sum.checked_add(len) {
                Some(s) => {
                    sum = s;
                },
                None => {
                    proof {
                        lemma_total_len_skip(parts, n - i - 1);
                    }
                    return (usize::MAX, None);
                },
            }
            i = i + 1;
        }
        assert(parts.skip(0) =~= parts);
        (sum, Some(sum))
    }

    fn next_task(&mut self) -> (t: Option<PartitionTask<T>>) {
        let ghost before = self.rest@;
        match self.rest.pop() {
            Some(items) => {
                proof {
                    assert(self.rest@ == before.drop_last());
                    assert(before.reverse().map_values(|p: Vec<T>| p@).drop_first()
                        =~= before.drop_last().reverse().map_values(|p: Vec<T>| p@));
                }
                Some(PartitionTask { items })
            },
            None => None,
        }
    }
}

/// The total with the first partition taken apart.
pub proof fn lemma_total_len_front<T>(parts: Seq<Seq<T>>)
    requires
        parts.len() > 0,
    ensures
        total_len(parts) == parts[0].len() + total_len(parts.drop_first()),
    decreases parts.len(),
{
    if parts.len() == 1 {
        assert(parts.drop_last() =~= parts.drop_first());
        assert(total_len(parts.drop_first()) == 0);
    } else {
        lemma_total_len_front(parts.drop_last());
        assert(parts.drop_last().drop_first() =~= parts.drop_first().drop_last());
        assert(parts.drop_first().last() == parts.last());
    }
}

/// A tail of the partitions holds no more items than all of them.
pub proof fn lemma_total_len_skip<T>(parts: Seq<Seq<T>>, k: int)
    requires
        0 <= k <= parts.len(),
    ensures
        total_len(parts.skip(k)) <= total_len(parts),
    decreases k,
{
    if k == 0 {
        assert(parts.skip(0) =~= parts);
    } else {
        lemma_total_len_front(parts);
        lemma_total_len_skip(parts.drop_first(), k - 1);
        assert(parts.drop_first().skip(k - 1) =~= parts.skip(k));
    }
}

impl<T> PartitionTask<T> {
    /// The task that offers `items`, in order.
    pub fn new(items: Vec<T>) -> (task: Self)
        ensures
            task.items() == items@,
    {
        PartitionTask { items }
    }
}

impl<T> Consumer for PartitionTask<T> {
    type Item = T;

    type Async = PartitionRun<T>;

    closed spec fn items(&self) -> Seq<T> {
        self.items@
    }

    open spec fn may_wait(&self) -> bool {
        false
    }

    fn into_async(self) -> (running: PartitionRun<T>) {
        let rest = reversed(self.items);
        assert(rest@.reverse() =~= self.items@);
        PartitionRun { rest }
    }
}

impl<T> ConsumerAsync for PartitionRun<T> {
    type Item = T;

    closed spec fn pending(&self) -> Seq<T> {
        self.rest@.reverse()
    }

    open spec fn may_wait(&self) -> bool {
        false
    }

    /// Offers the items that are left, until the sink says stop.
    fn poll_run<S: Sink<Item = T>>(&mut self, sink: S) -> (r: (Poll<bool>, S)) {
        let mut out = sink;
        let ghost before = self.pending();
        let ghost s0 = sink.state();
        let ghost mut k: int = 0;
        proof {
            assert(before.take(0) =~= Seq::<T>::empty());
            assert(before.skip(0) =~= before);
        }
        loop
            invariant
                before == old(self).pending(),
                s0 == sink.state(),
                0 <= k <= before.len(),
                self.pending() == before.skip(k),
                self.rest.len() == before.len() - k,
                run::<S>(s0, before.take(k)) == (Run {
                    state: out.state(),
                    offered: k as nat,
                    more: true,
                }),
            decreases self.rest.len(),
        {
            let ghost rest_before = self.rest@;
            match self.rest.pop() {
                None => {
                    proof {
                        assert(before.take(k) =~= before);
                        assert(before.skip(k) =~= Seq::<T>::empty());
                    }
                    return (Poll::Ready(true), out);
                },
                Some(item) => {
                    let more = out.offer(item);
                    proof {
                        assert(rest_before.reverse()[0] == item);
                        assert(before[k] == before.skip(k)[0]);
                        assert(before.take(k + 1) =~= before.take(k).push(item));
                        lemma_run_push::<S>(s0, before.take(k), item);
                        assert(self.rest@ == rest_before.drop_last());
                        assert(rest_before.drop_last().reverse() =~= rest_before.reverse().drop_first());
                        assert(before.skip(k).drop_first() =~= before.skip(k + 1));
                        k = k + 1;
                    }
                    if !more {
                        return (Poll::Ready(false), out);
                    }
                },
            }
        }
    }
}

} // verus!
