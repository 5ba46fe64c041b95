use vstd::prelude::*;
use vstd::math::min;

verus! {

/// Uniform capacity bound of every channel in the pipeline.
pub const CHANNEL_BOUND: usize = 2000;

/// What one best-effort send does to the outstanding messages of a channel
/// with capacity `bound`: append while there is room, drop otherwise.
pub open spec fn send_step<M>(q: Seq<M>, bound: nat, m: M) -> Seq<M> {
    if q.len() < bound {
        q.push(m)
    } else {
        q
    }
}

/// The outstanding messages after a whole burst of best-effort sends,
/// oldest message first.
pub open spec fn after_sends<M>(q: Seq<M>, bound: nat, msgs: Seq<M>) -> Seq<M>
    decreases msgs.len(),
{
    if msgs.len() == 0 {
        q
    } else {
        after_sends(send_step(q, bound, msgs[0]), bound, msgs.drop_first())
    }
}

/// A burst of best-effort sends fills the remaining room of the channel, in
/// arrival order, and drops the rest: starting from `q` with room for
/// `bound - q.len()` more, exactly the first `bound - q.len()` messages of
/// the burst (or the whole burst, if shorter) are appended.
pub proof fn lemma_sends_fill_room<M>(q: Seq<M>, bound: nat, msgs: Seq<M>)
    requires
        q.len() <= bound,
    ensures
        after_sends(q, bound, msgs) == q + msgs.take(
            min(bound - q.len(), msgs.len() as int),
        ),
    decreases msgs.len(),
{
    if msgs.len() == 0 {
        assert(after_sends(q, bound, msgs) =~= q + msgs.take(0));
    } else {
        if q.len() < bound {
            lemma_sends_fill_room(q.push(msgs[0]), bound, msgs.drop_first());
            assert(q.push(msgs[0]) + msgs.drop_first().take(
                min(bound - q.len() - 1, msgs.len() - 1),
            ) =~= q + msgs.take(min(bound - q.len(), msgs.len() as int)));
        } else {
            lemma_sends_fill_room(q, bound, msgs.drop_first());
            assert(q + msgs.drop_first().take(0) =~= q + msgs.take(0));
        }
    }
}

/// A channel with bound `B` accepts exactly `B` outstanding messages before
/// the backpressure policy takes effect: a burst of `msgs` sent best-effort
/// into an empty channel leaves exactly the first `min(B, msgs.len())` of
/// them pending, in arrival order, and drops every later one.
pub proof fn lemma_bound_is_exact<M>(bound: nat, msgs: Seq<M>)
    ensures
        after_sends(Seq::<M>::empty(), bound, msgs) == msgs.take(
            min(bound as int, msgs.len() as int),
        ),
{
    lemma_sends_fill_room(Seq::<M>::empty(), bound, msgs);
    assert(Seq::<M>::empty() + msgs.take(min(bound as int, msgs.len() as int)) =~= msgs.take(
        min(bound as int, msgs.len() as int),
    ));
}

/// One step in the life of a channel: a best-effort send of a message, or a
/// receive by the downstream consumer.
pub enum ChannelEvent<M> {
    Send(M),
    Recv,
}

/// The messages offered to the channel over a trace, in arrival order.
pub open spec fn sent_of<M>(evs: Seq<ChannelEvent<M>>) -> Seq<M>
    decreases evs.len(),
{
    if evs.len() == 0 {
        Seq::<M>::empty()
    } else {
        match evs[0] {
            ChannelEvent::Send(m) => seq![m] + sent_of(evs.drop_first()),
            ChannelEvent::Recv => sent_of(evs.drop_first()),
        }
    }
}

/// The messages the channel actually accepted over a trace starting from
/// outstanding messages `q`, in acceptance order.
pub open spec fn delivered_of<M>(q: Seq<M>, bound: nat, evs: Seq<ChannelEvent<M>>) -> Seq<M>
    decreases evs.len(),
{
    if evs.len() == 0 {
        Seq::<M>::empty()
    } else {
        match evs[0] {
            ChannelEvent::Send(m) => if q.len() < bound {
                seq![m] + delivered_of(q.push(m), bound, evs.drop_first())
            } else {
                delivered_of(q, bound, evs.drop_first())
            },
            ChannelEvent::Recv => if q.len() == 0 {
                delivered_of(q, bound, evs.drop_first())
            } else {
                delivered_of(q.drop_first(), bound, evs.drop_first())
            },
        }
    }
}

/// `a` can be obtained from `b` by deleting elements: `b` delivers the
/// elements of `a` in the same relative order, none of them twice.
pub open spec fn is_subsequence_of<M>(a: Seq<M>, b: Seq<M>) -> bool
    decreases a.len() + b.len(),
{
    if a.len() == 0 {
        true
    } else if b.len() == 0 {
        false
    } else {
        (a[0] == b[0] && is_subsequence_of(a.drop_first(), b.drop_first()))
            || is_subsequence_of(a, b.drop_first())
    }
}

/// Under any interleaving of best-effort sends and receives, what a channel
/// accepts is a subsequence of what was offered: at most one copy per
/// arrival, in arrival order, and never more copies than arrivals.
pub proof fn lemma_delivery_subsequence<M>(q: Seq<M>, bound: nat, evs: Seq<ChannelEvent<M>>)
    ensures
        is_subsequence_of(delivered_of(q, bound, evs), sent_of(evs)),
        delivered_of(q, bound, evs).len() <= sent_of(evs).len(),
    decreases evs.len(),
{
    if evs.len() == 0 {
    } else {
        match evs[0] {
            ChannelEvent::Send(m) => {
                if q.len() < bound {
                    lemma_delivery_subsequence(q.push(m), bound, evs.drop_first());
                    let d = delivered_of(q.push(m), bound, evs.drop_first());
                    let s = sent_of(evs.drop_first());
                    assert((seq![m] + d).drop_first() =~= d);
                    assert((seq![m] + s).drop_first() =~= s);
                    assert((seq![m] + d)[0] == (seq![m] + s)[0]);
                } else {
                    lemma_delivery_subsequence(q, bound, evs.drop_first());
                    let d = delivered_of(q, bound, evs.drop_first());
                    let s = sent_of(evs.drop_first());
                    assert((seq![m] + s).drop_first() =~= s);
                }
            },
            ChannelEvent::Recv => {
                if q.len() == 0 {
                    lemma_delivery_subsequence(q, bound, evs.drop_first());
                } else {
                    lemma_delivery_subsequence(q.drop_first(), bound, evs.drop_first());
                }
            },
        }
    }
}

/// A capacity-bounded FIFO channel: the model of every queue in the
/// pipeline. Senders see the backpressure policy once `bound` messages are
/// outstanding; within one channel, delivery order is arrival order.
pub struct BoundedChannel<M> {
    queue: Vec<M>,
    bound: usize,
}

impl<M> BoundedChannel<M> {
    /// The outstanding messages, oldest first.
    pub closed spec fn contents(self) -> Seq<M> {
        self.queue@
    }

    /// The capacity the channel was created with.
    pub closed spec fn bound(self) -> nat {
        self.bound as nat
    }

    /// A channel never holds more outstanding messages than its bound.
    pub open spec fn wf(self) -> bool {
        self.contents().len() <= self.bound()
    }

    /// A fresh, empty channel of capacity `bound`.
    pub fn new(bound: usize) -> (c: Self)
        ensures
            c.contents() == Seq::<M>::empty(),
            c.bound() == bound,
            c.wf(),
    {
        BoundedChannel { queue: Vec::new(), bound }
    }

    /// How many messages are outstanding.
    pub fn len(&self) -> (n: usize)
        ensures
            n == self.contents().len(),
    {
        self.queue.len()
    }

    /// Best-effort send: accepted exactly when the channel has room, dropped
    /// otherwise. Never blocks the sender.
    pub fn try_send(&mut self, m: M) -> (accepted: bool)
        requires
            old(self).wf(),
        ensures
            final(self).wf(),
            final(self).bound() == old(self).bound(),
            accepted == (old(self).contents().len() < old(self).bound()),
            final(self).contents() == send_step(old(self).contents(), old(self).bound(), m),
    {
        if self.queue.len() < self.bound {
            self.queue.push(m);
            true
        } else {
            false
        }
    }

    /// Receive the oldest outstanding message, if any.
    pub fn try_recv(&mut self) -> (m: Option<M>)
        requires
            old(self).wf(),
        ensures
            final(self).wf(),
            final(self).bound() == old(self).bound(),
            old(self).contents().len() == 0 ==> m is None && final(self).contents()
                == old(self).contents(),
            old(self).contents().len() > 0 ==> m == Some(old(self).contents().first())
                && final(self).contents() == old(self).contents().drop_first(),
    {
        if self.queue.len() == 0 {
            None
        } else {
            let m = self.queue.remove(0);
            proof {
                assert(self.queue@ =~= old(self).contents().drop_first());
            }
            Some(m)
        }
    }
}

} // verus!
