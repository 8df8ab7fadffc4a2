//! Peer record
//!
//! The Controller's per-slot state block: one record per logical address,
//! tracking the lifecycle of the Target that holds (or held, or is
//! claiming) that address, its unique identifier, a consecutive-error
//! counter, and the two bounded queues of frames exchanged with it.
//!
//! Two invariants govern every record (see [`Peer::wf`]): a record is
//! `Free` exactly when its stored identifier is zero, and an `Active`
//! record's error counter never exceeds 3 — the fourth consecutive error
//! demotes the record before the counter could reach 4.

use vstd::prelude::*;

use crate::frame_pool::{count_free, FrameBox, RawFrameSlice};
use crate::CmdAddr;

verus! {

/// The number of in-flight frames from the Controller to one Target: the
/// capacity of a peer's outgoing queue.
pub const OUTGOING_SIZE: usize = 8;

/// The number of in-flight frames from one Target to the Controller: the
/// capacity of a peer's incoming queue, matching the slots of the peer's
/// receive pool.
pub const INCOMING_SIZE: usize = 4;

/// Lifecycle state of one logical-address slot.
#[derive(Debug, PartialEq, Eq, Structural, Clone, Copy)]
pub enum PeerState {
    /// The address is unassigned.
    Free,
    /// A Target claimed the address; the claim awaits confirmation.
    Pending,
    /// The address is assigned and the Target is being polled.
    Active,
    /// The Target went quiet; the value is the instant, in timer ticks,
    /// the record entered this state. A warm state: the address is kept
    /// for a while so the device can re-acknowledge.
    Known(u64),
}

/// The lifecycle step a peer's `(state, counter, mac)` triple takes when
/// one error (timeout, bad reply, resource exhaustion) is recorded at
/// instant `now`.
///
/// Free and Known records ignore errors; a Pending record is evicted on
/// its single strike; an Active record counts strikes and is demoted to
/// `Known(now)` by the fourth consecutive one.
pub open spec fn error_transition(state: PeerState, counter: u8, mac: u64, now: u64) -> (
    PeerState,
    u8,
    u64,
) {
    match state {
        PeerState::Free => (state, counter, mac),
        PeerState::Known(t) => (state, counter, mac),
        PeerState::Pending => (PeerState::Free, 0u8, 0u64),
        PeerState::Active => if counter < 3 {
            (PeerState::Active, (counter + 1) as u8, mac)
        } else {
            (PeerState::Known(now), 0u8, mac)
        },
    }
}

/// How a peer record, and the outbound frames the step hands back for
/// release, relate to the record's prior value after one recorded error:
/// the lifecycle fields follow [`error_transition`], the receive pool at
/// most gains free slots, and the queues are emptied exactly when the
/// record is evicted or demoted.
pub open spec fn errored(post: Peer, pre: Peer, now: u64, dropped: Seq<FrameBox>) -> bool {
    &&& (post.state, post.counter, post.mac) == error_transition(
        pre.state,
        pre.counter,
        pre.mac,
        now,
    )
    &&& Peer::pool_only_freed(&post, &pre)
    &&& ((pre.state is Free || pre.state is Known) ==> post == pre && dropped.len() == 0)
    &&& ((pre.state is Active && pre.counter < 3) ==> post == (Peer {
        counter: (pre.counter + 1) as u8,
        ..pre
    }) && dropped.len() == 0)
    &&& ((pre.state is Pending || (pre.state is Active && pre.counter == 3)) ==> post.to_peer@.len()
        == 0 && post.from_peer@.len() == 0 && dropped == pre.to_peer@)
}

/// One logical-address slot of the Controller.
pub struct Peer {
    /// Lifecycle state.
    pub state: PeerState,
    /// Consecutive-error count.
    pub counter: u8,
    /// The pool the slot's receive frames are allocated from.
    pub incoming_pool: RawFrameSlice,
    /// The unique identifier of the device holding the address; zero
    /// exactly when the slot is Free.
    pub mac: u64,
    /// Outbound frames awaiting transmission to the peer.
    pub to_peer: Vec<FrameBox>,
    /// Inbound frames received from the peer, awaiting the user.
    pub from_peer: Vec<FrameBox>,
}

impl Peer {
    /// Validity of one record.
    ///
    /// Beside structural bounds this carries the two lifecycle
    /// invariants: a record is Free exactly when its identifier is zero,
    /// and the error counter is zero outside Active and at most 3 within
    /// it. Frames queued from the peer are valid wire frames (their byte
    /// 0 decodes); frames queued to the peer are valid frames.
    pub open spec fn wf(&self) -> bool {
        &&& (self.state is Free <==> self.mac == 0)
        &&& (self.state is Active ==> self.counter <= 3)
        &&& (!(self.state is Active) ==> self.counter == 0)
        &&& self.incoming_pool.wf()
        &&& self.to_peer@.len() <= OUTGOING_SIZE
        &&& self.from_peer@.len() <= INCOMING_SIZE
        &&& (forall|i: int| 0 <= i < self.to_peer@.len() ==> (#[trigger] self.to_peer@[i]).wf())
        &&& (forall|i: int|
            0 <= i < self.from_peer@.len() ==> (#[trigger] self.from_peer@[i]).wf()
                && CmdAddr::decode_spec(self.from_peer@[i].data@[0]) is Ok)
    }

    /// The pool is unchanged in place and extent, and no slot that was
    /// free became allocated.
    pub open spec fn pool_only_freed(post: &Peer, pre: &Peer) -> bool {
        &&& post.incoming_pool.base == pre.incoming_pool.base
        &&& post.incoming_pool.capacity_spec() == pre.incoming_pool.capacity_spec()
        &&& count_free(post.incoming_pool.flags@) >= count_free(pre.incoming_pool.flags@)
    }

    /// A fresh, Free record with no backing pool.
    pub fn new() -> (r: Self)
        ensures
            r.wf(),
            r.state is Free,
            r.counter == 0,
            r.mac == 0,
            r.to_peer@.len() == 0,
            r.from_peer@.len() == 0,
            r.incoming_pool.capacity_spec() == 0,
    {
        Peer {
            state: PeerState::Free,
            counter: 0,
            incoming_pool: RawFrameSlice::uninit(),
            mac: 0,
            to_peer: Vec::new(),
            from_peer: Vec::new(),
        }
    }

    /// Release every queued inbound frame back into the receive pool and
    /// hand the queued outbound frames back to the caller, whose pool
    /// they came from.
    fn clear_queues(&mut self) -> (dropped: Vec<FrameBox>)
        requires
            old(self).incoming_pool.wf(),
        ensures
            final(self).to_peer@.len() == 0,
            final(self).from_peer@.len() == 0,
            Peer::pool_only_freed(final(self), old(self)),
            final(self).state == old(self).state,
            final(self).counter == old(self).counter,
            final(self).mac == old(self).mac,
            dropped@ == old(self).to_peer@,
    {
        let mut dropped: Vec<FrameBox> = Vec::new();
        core::mem::swap(&mut dropped, &mut self.to_peer);
        while self.from_peer.len() > 0
            invariant
                self.incoming_pool.wf(),
                Peer::pool_only_freed(self, old(self)),
                self.to_peer@.len() == 0,
                self.state == old(self).state,
                self.counter == old(self).counter,
                self.mac == old(self).mac,
                dropped@ == old(self).to_peer@,
            decreases self.from_peer@.len(),
        {
            match self.from_peer.pop() {
                Some(fb) => {
                    match self.incoming_pool.release(fb) {
                        Ok(_) => (),
                        Err(_stray) => (),
                    }
                },
                None => (),
            }
        }
        dropped
    }

    /// Clear the record back to Free: the identifier is zeroed, the
    /// counter reset, and both queues emptied. Outbound frames are
    /// handed back for release.
    pub fn reset_to_free(&mut self) -> (dropped: Vec<FrameBox>)
        requires
            old(self).wf(),
        ensures
            final(self).wf(),
            final(self).state is Free,
            final(self).mac == 0,
            final(self).counter == 0,
            final(self).to_peer@.len() == 0,
            final(self).from_peer@.len() == 0,
            Peer::pool_only_freed(final(self), old(self)),
            dropped@ == old(self).to_peer@,
    {
        let dropped = self.clear_queues();
        self.mac = 0;
        self.state = PeerState::Free;
        self.counter = 0;
        dropped
    }

    /// Confirm a claim or refresh a warm record: Pending or Known becomes
    /// Active. The identifier is kept, the counter reset, the queues
    /// emptied.
    pub fn promote_to_active(&mut self) -> (dropped: Vec<FrameBox>)
        requires
            old(self).wf(),
            old(self).state is Pending || old(self).state is Known,
        ensures
            final(self).wf(),
            final(self).state is Active,
            final(self).mac == old(self).mac,
            final(self).counter == 0,
            final(self).to_peer@.len() == 0,
            final(self).from_peer@.len() == 0,
            Peer::pool_only_freed(final(self), old(self)),
            dropped@ == old(self).to_peer@,
    {
        let dropped = self.clear_queues();
        self.state = PeerState::Active;
        self.counter = 0;
        dropped
    }

    /// Demote an Active record to Known at instant `now`: the identifier
    /// is kept so the device may re-acknowledge, the counter resets, the
    /// queues are emptied.
    pub fn reset_to_known(&mut self, now: u64) -> (dropped: Vec<FrameBox>)
        requires
            old(self).wf(),
            old(self).state is Active,
        ensures
            final(self).wf(),
            final(self).state == PeerState::Known(now),
            final(self).mac == old(self).mac,
            final(self).counter == 0,
            final(self).to_peer@.len() == 0,
            final(self).from_peer@.len() == 0,
            Peer::pool_only_freed(final(self), old(self)),
            dropped@ == old(self).to_peer@,
    {
        let dropped = self.clear_queues();
        self.state = PeerState::Known(now);
        self.counter = 0;
        dropped
    }

    /// Warm-start a Free record as Known at instant `now` with a
    /// persisted identifier.
    pub fn promote_to_known_with_mac(&mut self, mac: u64, now: u64) -> (dropped: Vec<FrameBox>)
        requires
            old(self).wf(),
            old(self).state is Free,
            mac != 0,
        ensures
            final(self).wf(),
            final(self).state == PeerState::Known(now),
            final(self).mac == mac,
            final(self).counter == 0,
            final(self).to_peer@.len() == 0,
            final(self).from_peer@.len() == 0,
            Peer::pool_only_freed(final(self), old(self)),
            dropped@ == old(self).to_peer@,
    {
        let dropped = self.clear_queues();
        self.mac = mac;
        self.state = PeerState::Known(now);
        self.counter = 0;
        dropped
    }

    /// Record a fresh claim on a Free record: it becomes Pending with the
    /// claimed identifier.
    pub fn promote_to_pending(&mut self, mac: u64) -> (dropped: Vec<FrameBox>)
        requires
            old(self).wf(),
            old(self).state is Free,
            mac != 0,
        ensures
            final(self).wf(),
            final(self).state is Pending,
            final(self).mac == mac,
            final(self).counter == 0,
            final(self).to_peer@.len() == 0,
            final(self).from_peer@.len() == 0,
            Peer::pool_only_freed(final(self), old(self)),
            dropped@ == old(self).to_peer@,
    {
        let dropped = self.clear_queues();
        self.mac = mac;
        self.state = PeerState::Pending;
        self.counter = 0;
        dropped
    }

    /// A successful exchange clears the consecutive-error counter.
    pub fn set_success(&mut self)
        requires
            old(self).wf(),
        ensures
            final(self).wf(),
            *final(self) == (Peer { counter: 0u8, ..*old(self) }),
    {
        self.counter = 0;
    }

    /// Record one error against this peer at instant `now`, following the
    /// per-state policy of [`error_transition`]. Outbound frames cleared
    /// by an eviction or demotion are handed back for release.
    pub fn increment_error(&mut self, now: u64) -> (dropped: Vec<FrameBox>)
        requires
            old(self).wf(),
        ensures
            final(self).wf(),
            errored(*final(self), *old(self), now, dropped@),
    {
        match self.state {
            PeerState::Free => Vec::new(),
            PeerState::Known(_) => Vec::new(),
            PeerState::Pending => self.reset_to_free(),
            PeerState::Active => {
                if self.counter < 3 {
                    self.counter = self.counter + 1;
                    Vec::new()
                } else {
                    self.reset_to_known(now)
                }
            },
        }
    }

    /// The claimed identifier, if this record is Pending.
    pub fn is_pending(&self) -> (r: Option<u64>)
        ensures
            r == if self.state is Pending {
                Some(self.mac)
            } else {
                None::<u64>
            },
    {
        if matches!(self.state, PeerState::Pending) {
            Some(self.mac)
        } else {
            None
        }
    }

    /// Is this record Active?
    pub fn is_active(&self) -> (r: bool)
        ensures
            r == (self.state is Active),
    {
        matches!(self.state, PeerState::Active)
    }

    /// The identifier and demotion instant, if this record is Known.
    pub fn is_known(&self) -> (r: Option<(u64, u64)>)
        ensures
            r == match self.state {
                PeerState::Known(t) => Some((self.mac, t)),
                _ => None::<(u64, u64)>,
            },
    {
        match self.state {
            PeerState::Known(t) => Some((self.mac, t)),
            _ => None,
        }
    }

    /// The stored identifier.
    pub fn mac(&self) -> (r: u64)
        ensures
            r == self.mac,
    {
        self.mac
    }

    /// Is this slot eligible for a fresh discovery offer? True exactly
    /// when the record is Free and every slot of its receive pool is
    /// free, i.e. no previously handed-out frame is still alive.
    pub fn is_idle(&self) -> (r: bool)
        ensures
            r == (self.state is Free && count_free(self.incoming_pool.flags@)
                == self.incoming_pool.capacity_spec()),
    {
        if !matches!(self.state, PeerState::Free) {
            return false;
        }
        self.incoming_pool.count_allocatable() == self.incoming_pool.capacity()
    }

    /// Allocate a receive frame from this slot's pool.
    pub fn alloc_incoming(&mut self) -> (r: Option<FrameBox>)
        requires
            old(self).wf(),
        ensures
            final(self).wf(),
            final(self).state == old(self).state,
            final(self).counter == old(self).counter,
            final(self).mac == old(self).mac,
            final(self).to_peer == old(self).to_peer,
            final(self).from_peer == old(self).from_peer,
            final(self).incoming_pool.base == old(self).incoming_pool.base,
            final(self).incoming_pool.capacity_spec() == old(self).incoming_pool.capacity_spec(),
            r is None <==> count_free(old(self).incoming_pool.flags@) == 0,
            r matches Some(fb) ==> fb.wf() && fb.len == crate::frame_pool::MAX_FRAME_LEN
                && old(self).incoming_pool.contains_slot(fb.slot)
                && count_free(final(self).incoming_pool.flags@)
                == count_free(old(self).incoming_pool.flags@) - 1,
    {
        self.incoming_pool.allocate_raw()
    }

    /// Is this record Active and holding the given identifier?
    pub fn is_active_mac(&self, mac: u64) -> (r: bool)
        ensures
            r == (self.state is Active && self.mac == mac),
    {
        if !matches!(self.state, PeerState::Active) {
            return false;
        }
        self.mac == mac
    }

    /// Queue a received frame for the user. The queue's capacity equals
    /// the receive pool's slot count, so for frames drawn from the pool
    /// space is always available.
    pub fn enqueue_incoming(&mut self, msg: FrameBox)
        requires
            old(self).wf(),
            old(self).from_peer@.len() < INCOMING_SIZE,
            msg.wf(),
            CmdAddr::decode_spec(msg.data@[0]) is Ok,
        ensures
            final(self).wf(),
            *final(self) == (Peer { from_peer: final(self).from_peer, ..*old(self) }),
            final(self).from_peer@ == old(self).from_peer@.push(msg),
    {
        self.from_peer.push(msg);
    }

    /// Queue an outbound frame for the peer; hands the frame back if the
    /// queue is full.
    pub fn enqueue_outgoing(&mut self, msg: FrameBox) -> (r: Result<(), FrameBox>)
        requires
            old(self).wf(),
            msg.wf(),
        ensures
            final(self).wf(),
            old(self).to_peer@.len() < OUTGOING_SIZE ==> r is Ok && *final(self) == (Peer {
                to_peer: final(self).to_peer,
                ..*old(self)
            }) && final(self).to_peer@ == old(self).to_peer@.push(msg),
            old(self).to_peer@.len() >= OUTGOING_SIZE ==> r == Err::<(), FrameBox>(msg)
                && *final(self) == *old(self),
    {
        if self.to_peer.len() < OUTGOING_SIZE {
            self.to_peer.push(msg);
            Ok(())
        } else {
            Err(msg)
        }
    }

    /// Pop the oldest received frame, if any.
    pub fn dequeue_incoming(&mut self) -> (r: Option<FrameBox>)
        requires
            old(self).wf(),
        ensures
            final(self).wf(),
            old(self).from_peer@.len() == 0 ==> r is None && *final(self) == *old(self),
            old(self).from_peer@.len() > 0 ==> r == Some(old(self).from_peer@[0]) && *final(self)
                == (Peer { from_peer: final(self).from_peer, ..*old(self) })
                && final(self).from_peer@ == old(self).from_peer@.skip(1),
    {
        if self.from_peer.len() == 0 {
            None
        } else {
            let fb = self.from_peer.remove(0);
            assert(final(self).from_peer@ =~= old(self).from_peer@.skip(1));
            Some(fb)
        }
    }

    /// Pop the oldest outbound frame, if any.
    pub fn dequeue_outgoing(&mut self) -> (r: Option<FrameBox>)
        requires
            old(self).wf(),
        ensures
            final(self).wf(),
            old(self).to_peer@.len() == 0 ==> r is None && *final(self) == *old(self),
            old(self).to_peer@.len() > 0 ==> r == Some(old(self).to_peer@[0]) && *final(self) == (
            Peer { to_peer: final(self).to_peer, ..*old(self) })
                && final(self).to_peer@ == old(self).to_peer@.skip(1),
    {
        if self.to_peer.len() == 0 {
            None
        } else {
            let fb = self.to_peer.remove(0);
            assert(final(self).to_peer@ =~= old(self).to_peer@.skip(1));
            Some(fb)
        }
    }

    /// Give this slot its receive pool.
    pub fn set_pool(&mut self, pool: RawFrameSlice)
        requires
            old(self).wf(),
            pool.wf(),
        ensures
            final(self).wf(),
            *final(self) == (Peer { incoming_pool: pool, ..*old(self) }),
    {
        self.incoming_pool = pool;
    }
}

/// Law: a record is Free exactly when its identifier is zero, in every
/// valid state.
pub proof fn lemma_free_iff_mac_zero(p: Peer)
    requires
        p.wf(),
    ensures
        p.state is Free <==> p.mac == 0,
{
}

/// Law: an Active record's consecutive-error counter never exceeds 3; in
/// particular it lies in 0..=3 immediately after any transition out of
/// Active, where it is reset to zero.
pub proof fn lemma_active_counter_bounded(p: Peer)
    requires
        p.wf(),
    ensures
        p.state is Active ==> p.counter <= 3,
        !(p.state is Active) ==> p.counter == 0,
{
}

/// Law: a Pending record is evicted to Free by a single error.
pub proof fn lemma_pending_one_strike(counter: u8, mac: u64, now: u64)
    ensures
        error_transition(PeerState::Pending, counter, mac, now) == (PeerState::Free, 0u8, 0u64),
{
}

/// Law: an Active record that suffers four consecutive errors is demoted
/// to Known exactly at the fourth, and a fifth error does not demote or
/// change it further.
pub proof fn lemma_fourth_timeout_demotes(mac: u64, t1: u64, t2: u64, t3: u64, t4: u64, t5: u64)
    ensures
        ({
            let s0 = (PeerState::Active, 0u8, mac);
            let s1 = error_transition(s0.0, s0.1, s0.2, t1);
            let s2 = error_transition(s1.0, s1.1, s1.2, t2);
            let s3 = error_transition(s2.0, s2.1, s2.2, t3);
            let s4 = error_transition(s3.0, s3.1, s3.2, t4);
            let s5 = error_transition(s4.0, s4.1, s4.2, t5);
            &&& s1.0 is Active
            &&& s2.0 is Active
            &&& s3.0 is Active
            &&& s4 == (PeerState::Known(t4), 0u8, mac)
            &&& s5 == s4
        }),
{
}

} // verus!
