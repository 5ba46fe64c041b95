use vstd::prelude::*;
use vstd::math::min;
use crate::channel::BoundedChannel;
use crate::channel::after_sends;
use crate::channel::lemma_sends_fill_room;
use crate::channel::send_step;

verus! {

/// Which of the three duplicate sends of one routed message were accepted;
/// a dropped copy is a countable event, never an error.
#[derive(Clone, Copy, PartialEq, Eq, Structural, Debug)]
pub struct Delivery {
    pub arb: bool,
    pub pump: bool,
    pub grad: bool,
}

/// The fan-out router of the replicated topology. It owns one outbound
/// bounded channel per strategy pipeline; every message read once from
/// upstream is duplicated into all three, best-effort, in the fixed order
/// arbitrage, pump, graduates.
///
/// The message type is a cheaply duplicable handle (shared, not copied) to
/// one decoded entry batch or one reconstruction error note, so duplication
/// is a plain copy of the handle, never of the decoded content.
pub struct Router<M> {
    pub arb: BoundedChannel<M>,
    pub pump: BoundedChannel<M>,
    pub grad: BoundedChannel<M>,
}

impl<M> Router<M> {
    /// Every downstream channel respects its capacity bound.
    pub open spec fn wf(self) -> bool {
        self.arb.wf() && self.pump.wf() && self.grad.wf()
    }

    /// A fresh router whose three downstream channels are empty and share
    /// the uniform capacity `bound`.
    pub fn new(bound: usize) -> (r: Self)
        ensures
            r.wf(),
            r.arb.contents() == Seq::<M>::empty(),
            r.pump.contents() == Seq::<M>::empty(),
            r.grad.contents() == Seq::<M>::empty(),
            r.arb.bound() == bound,
            r.pump.bound() == bound,
            r.grad.bound() == bound,
    {
        Router {
            arb: BoundedChannel::new(bound),
            pump: BoundedChannel::new(bound),
            grad: BoundedChannel::new(bound),
        }
    }
}

impl<M: Copy> Router<M> {
    /// Route one upstream message: one duplicate send per downstream
    /// channel, each accepted exactly when that channel has room and
    /// silently dropped otherwise, so a saturated pipeline never blocks the
    /// other two nor the upstream reader.
    pub fn route(&mut self, m: M) -> (d: Delivery)
        requires
            old(self).wf(),
        ensures
            final(self).wf(),
            final(self).arb.bound() == old(self).arb.bound(),
            final(self).pump.bound() == old(self).pump.bound(),
            final(self).grad.bound() == old(self).grad.bound(),
            final(self).arb.contents() == send_step(
                old(self).arb.contents(),
                old(self).arb.bound(),
                m,
            ),
            final(self).pump.contents() == send_step(
                old(self).pump.contents(),
                old(self).pump.bound(),
                m,
            ),
            final(self).grad.contents() == send_step(
                old(self).grad.contents(),
                old(self).grad.bound(),
                m,
            ),
            d.arb == (old(self).arb.contents().len() < old(self).arb.bound()),
            d.pump == (old(self).pump.contents().len() < old(self).pump.bound()),
            d.grad == (old(self).grad.contents().len() < old(self).grad.bound()),
    {
        let arb = self.arb.try_send(m);
        let pump = self.pump.try_send(m);
        let grad = self.grad.try_send(m);
        Delivery { arb, pump, grad }
    }
}

/// For any burst of `msgs` reaching the router, each downstream channel,
/// taken from empty, receives at most `msgs.len()` copies, preserves their
/// relative arrival order, and never receives one arrival more than once:
/// its outstanding messages are exactly the first `min(bound, msgs.len())`
/// elements of the burst.
pub proof fn lemma_fanout_at_most_once_in_order<M>(bound: nat, msgs: Seq<M>)
    ensures
        after_sends(Seq::<M>::empty(), bound, msgs) == msgs.take(
            min(bound as int, msgs.len() as int),
        ),
        after_sends(Seq::<M>::empty(), bound, msgs).len() <= msgs.len(),
        forall|i: int|
            0 <= i < after_sends(Seq::<M>::empty(), bound, msgs).len() ==> after_sends(
                Seq::<M>::empty(),
                bound,
                msgs,
            )[i] == msgs[i],
{
    crate::channel::lemma_bound_is_exact(bound, msgs);
}

/// A downstream channel that starts with room for the whole burst misses
/// nothing: every copy is delivered, in order.
pub proof fn lemma_fanout_lossless_when_room<M>(q: Seq<M>, bound: nat, msgs: Seq<M>)
    requires
        q.len() + msgs.len() <= bound,
    ensures
        after_sends(q, bound, msgs) == q + msgs,
{
    lemma_sends_fill_room(q, bound, msgs);
    assert(msgs.take(min(bound - q.len(), msgs.len() as int)) =~= msgs);
}

} // verus!
