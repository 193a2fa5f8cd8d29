//! A notification stream that hands out injected slots before anything the
//! wrapped stream produces.
use std::collections::VecDeque;
use vstd::prelude::*;

verus! {

/// Something that carries the slot at which it was observed.
pub trait GiveSlot {
    /// The slot that `slot` returns.
    spec fn spec_slot(&self) -> u64;

    fn slot(&self) -> (s: u64)
        ensures
            s == self.spec_slot(),
    ;
}

/// What the library reads of a transaction notification: its slot.
#[derive(Clone, Copy, Debug, PartialEq, Eq)]
pub struct TransactionNotification {
    pub slot: u64,
}

impl GiveSlot for TransactionNotification {
    open spec fn spec_slot(&self) -> u64 {
        self.slot
    }

    fn slot(&self) -> (s: u64) {
        self.slot
    }
}

/// An item of a [`WrappedStream`]: either one produced by the wrapped stream
/// or a slot injected by the owner of the stream.
#[derive(Clone, Debug, PartialEq)]
pub enum Item<T> {
    FromStream(T),
    Injected(u64),
}

impl<T: GiveSlot> Item<T> {
    /// The slot an item stands for.
    pub open spec fn spec_slot(&self) -> u64 {
        match self {
            Item::FromStream(item) => item.spec_slot(),
            Item::Injected(slot) => *slot,
        }
    }

    pub fn slot(&self) -> (s: u64)
        ensures
            s == self.spec_slot(),
    {
        match self {
            Item::FromStream(item) => item.slot(),
            Item::Injected(slot) => *slot,
        }
    }
}

/// One step of a client driving a [`WrappedStream`]: injecting a slot or
/// polling.
pub enum StreamOp {
    Inject(u64),
    Poll,
}

/// The queue after the steps `ops`, starting from an empty queue.
pub open spec fn queue_after_ops(ops: Seq<StreamOp>) -> Seq<u64>
    decreases ops.len(),
{
    if ops.len() == 0 {
        Seq::empty()
    } else {
        let q = queue_after_ops(ops.drop_last());
        match ops.last() {
            StreamOp::Inject(v) => queue_after_inject(q, v),
            StreamOp::Poll => queue_take(q).1,
        }
    }
}

/// What each poll among `ops` took from the queue: an injected slot, or
/// `None` when it fell through to the wrapped stream.
pub open spec fn polled(ops: Seq<StreamOp>) -> Seq<Option<u64>>
    decreases ops.len(),
{
    if ops.len() == 0 {
        Seq::empty()
    } else {
        let p = polled(ops.drop_last());
        match ops.last() {
            StreamOp::Inject(_) => p,
            StreamOp::Poll => p.push(queue_take(queue_after_ops(ops.drop_last())).0),
        }
    }
}

/// The slots injected by `ops`, in order.
pub open spec fn injected(ops: Seq<StreamOp>) -> Seq<u64>
    decreases ops.len(),
{
    if ops.len() == 0 {
        Seq::empty()
    } else {
        match ops.last() {
            StreamOp::Inject(v) => injected(ops.drop_last()).push(v),
            StreamOp::Poll => injected(ops.drop_last()),
        }
    }
}

/// The injected slots among poll results, in order.
pub open spec fn yielded(outs: Seq<Option<u64>>) -> Seq<u64>
    decreases outs.len(),
{
    if outs.len() == 0 {
        Seq::empty()
    } else {
        match outs.last() {
            Some(v) => yielded(outs.drop_last()).push(v),
            None => yielded(outs.drop_last()),
        }
    }
}

proof fn lemma_ops_conserve(ops: Seq<StreamOp>)
    ensures
        yielded(polled(ops)) + queue_after_ops(ops) == injected(ops),
    decreases ops.len(),
{
    if ops.len() > 0 {
        let prev = ops.drop_last();
        lemma_ops_conserve(prev);
        let q = queue_after_ops(prev);
        let y = yielded(polled(prev));
        match ops.last() {
            StreamOp::Inject(v) => {
                assert((y + q).push(v) =~= y + q.push(v));
            },
            StreamOp::Poll => {
                let p = polled(prev).push(queue_take(q).0);
                assert(p.drop_last() =~= polled(prev));
                if q.len() == 0 {
                    assert(yielded(p) == y);
                } else {
                    assert(yielded(p) == y.push(q[0]));
                    assert(y.push(q[0]) + q.drop_first() =~= y + q);
                }
            },
        }
    }
}

/// However injects and polls interleave, the injected slots come out
/// exactly once each, in the order they were injected: the slots the polls
/// have handed out, followed by those still queued, are the slots
/// injected. And a poll falls through to the wrapped stream exactly when
/// every slot injected before it has already been handed out.
pub proof fn law_interleaved_fifo(ops: Seq<StreamOp>)
    ensures
        yielded(polled(ops)) + queue_after_ops(ops) == injected(ops),
        forall|n: int|
            0 <= n < ops.len() && ops[n] is Poll ==> (queue_take(
                #[trigger] queue_after_ops(ops.take(n)),
            ).0 is None <==> yielded(polled(ops.take(n))) == injected(ops.take(n))),
{
    lemma_ops_conserve(ops);
    assert forall|n: int| 0 <= n < ops.len() && ops[n] is Poll implies (queue_take(
        #[trigger] queue_after_ops(ops.take(n)),
    ).0 is None <==> yielded(polled(ops.take(n))) == injected(ops.take(n))) by {
        let pre = ops.take(n);
        lemma_ops_conserve(pre);
        let y = yielded(polled(pre));
        let q = queue_after_ops(pre);
        if q.len() == 0 {
            assert(y + q =~= y);
        } else {
            assert((y + q).len() > y.len());
        }
    }
}

/// The item handed out for an injected slot reports that slot, so a slot
/// injected into the stream is the slot recorded when its item is handled.
pub proof fn law_injected_item_slot<T: GiveSlot>(v: u64)
    ensures
        Item::<T>::Injected(v).spec_slot() == v,
{
}

/// An item from the wrapped stream reports the slot of the notification it
/// wraps; for a transaction notification, that is its `slot` field.
pub proof fn law_stream_item_slot<T: GiveSlot>(x: T, n: TransactionNotification)
    ensures
        Item::<T>::FromStream(x).spec_slot() == x.spec_slot(),
        Item::<TransactionNotification>::FromStream(n).spec_slot() == n.slot,
{
}

/// A stream wrapper with a FIFO queue of injected slots.
pub struct WrappedStream<S> {
    inner: S,
    inject_queue: VecDeque<u64>,
}

/// The queue after `val` has been injected.
pub open spec fn queue_after_inject(queue: Seq<u64>, val: u64) -> Seq<u64> {
    queue.push(val)
}

/// What a poll takes from the queue: its front, if any, and the rest.
pub open spec fn queue_take(queue: Seq<u64>) -> (Option<u64>, Seq<u64>) {
    if queue.len() == 0 {
        (None, queue)
    } else {
        (Some(queue[0]), queue.drop_first())
    }
}

/// The queue after each of `vals` has been injected, in order.
pub open spec fn queue_after_injects(queue: Seq<u64>, vals: Seq<u64>) -> Seq<u64>
    decreases vals.len(),
{
    if vals.len() == 0 {
        queue
    } else {
        queue_after_inject(queue_after_injects(queue, vals.drop_last()), vals.last())
    }
}

/// The queue after `n` polls have taken from it.
pub open spec fn queue_after_takes(queue: Seq<u64>, n: nat) -> Seq<u64>
    decreases n,
{
    if n == 0 {
        queue
    } else {
        queue_take(queue_after_takes(queue, (n - 1) as nat)).1
    }
}

proof fn lemma_injects_append(queue: Seq<u64>, vals: Seq<u64>)
    ensures
        queue_after_injects(queue, vals) == queue + vals,
    decreases vals.len(),
{
    if vals.len() > 0 {
        lemma_injects_append(queue, vals.drop_last());
        assert(queue + vals =~= (queue + vals.drop_last()).push(vals.last()));
    } else {
        assert(queue + vals =~= queue);
    }
}

proof fn lemma_takes_skip(queue: Seq<u64>, n: nat)
    requires
        n <= queue.len(),
    ensures
        queue_after_takes(queue, n) == queue.subrange(n as int, queue.len() as int),
    decreases n,
{
    if n == 0 {
        assert(queue.subrange(0, queue.len() as int) =~= queue);
    } else {
        lemma_takes_skip(queue, (n - 1) as nat);
        assert(queue.subrange(n - 1, queue.len() as int).drop_first() =~= queue.subrange(
            n as int,
            queue.len() as int,
        ));
    }
}

/// Injected slots are handed out in the order in which they were injected:
/// after `vals` have been injected into an empty queue, poll number `i`
/// (counting from zero) hands out `vals[i]`; once all of them are out, a
/// poll takes nothing from the queue and falls through to the wrapped stream.
pub proof fn law_injected_fifo(vals: Seq<u64>, i: nat)
    requires
        i <= vals.len(),
    ensures
        queue_take(queue_after_takes(queue_after_injects(Seq::empty(), vals), i)).0 == (if i
            < vals.len() {
            Some(vals[i as int])
        } else {
            None::<u64>
        }),
{
    lemma_injects_append(Seq::empty(), vals);
    assert(Seq::<u64>::empty() + vals =~= vals);
    lemma_takes_skip(vals, i);
}

impl<S> WrappedStream<S> {
    /// The injected slots not yet handed out, oldest first.
    pub closed spec fn queued(&self) -> Seq<u64> {
        self.inject_queue@
    }

    /// The wrapped stream.
    pub closed spec fn inner_stream(&self) -> S {
        self.inner
    }

    pub fn new(inner: S) -> (w: Self)
        ensures
            w.queued() == Seq::<u64>::empty(),
            w.inner_stream() == inner,
    {
        WrappedStream { inner, inject_queue: VecDeque::new() }
    }

    pub fn inject(&mut self, val: u64)
        ensures
            final(self).queued() == queue_after_inject(old(self).queued(), val),
            final(self).inner_stream() == old(self).inner_stream(),
    {
        self.inject_queue.push_back(val);
    }

    /// The first half of a poll: the oldest injected slot, if one is queued.
    /// Only when this gives `None` is the wrapped stream polled.
    pub fn poll_injected<T>(&mut self) -> (r: Option<Item<T>>)
        ensures
            queue_take(old(self).queued()).0 matches Some(v) ==> r == Some(Item::<T>::Injected(v)),
            queue_take(old(self).queued()).0 is None ==> r is None,
            final(self).queued() == queue_take(old(self).queued()).1,
            final(self).inner_stream() == old(self).inner_stream(),
    {
        match self.inject_queue.pop_front() {
            Some(val) => Some(Item::Injected(val)),
            None => None,
        }
    }

    /// The wrapped stream, to be polled when no injected slot is queued.
    pub fn inner_mut(&mut self) -> (r: &mut S)
        ensures
            *r == old(self).inner_stream(),
            final(self).inner_stream() == *final(r),
            final(self).queued() == old(self).queued(),
    {
        &mut self.inner
    }
}

} // verus!
