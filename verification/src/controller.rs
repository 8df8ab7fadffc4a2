//! Controller engine
//!
//! The Controller owns the bus: a table of [`Peer`] records, one per
//! logical address, drives a polling round of four phases — serve the
//! Active peers, confirm the Pending claims, refresh the Known records,
//! then offer one free address. Each phase alternates a wire transfer
//! with a decision, and every decision is a function here: the caller
//! performs the transfer (transmit, then listen with a timeout) and hands
//! the outcome back. The user-facing surface — `send`, `recv_from`,
//! `connected`, `add_known_macs` — works on the same table.
//!
//! Frames are single-owner [`FrameBox`] handles. A function that retires
//! frames (a transmitted outbound frame, the queues of an evicted record)
//! hands them back to the caller, which returns each to the pool it was
//! allocated from — [`Controller::release_frame`] routes the ones that
//! came from a peer's receive pool.

use vstd::prelude::*;

use crate::frame_pool::{count_free, FrameBox, RawFrameSlice, WireFrameBox, MAX_FRAME_LEN};
use crate::peer::{errored, Peer, PeerState, INCOMING_SIZE, OUTGOING_SIZE};
use crate::{xor_seq, CmdAddr, MAX_TARGETS};
use vstd::bytes::{spec_u64_from_le_bytes, spec_u64_to_le_bytes, u64_from_le_bytes, u64_to_le_bytes};

verus! {

/// How long the Controller listens for a Target's reply, in timer ticks
/// of one microsecond: one millisecond.
pub const REPLY_TIMEOUT_TICKS: u64 = 1_000;

/// How long a record may sit in Known before a polling round resets it
/// to Free, in timer ticks of one microsecond: five seconds.
pub const KNOWN_TIMEOUT_TICKS: u64 = 5_000_000;

/// Has a record demoted to Known at instant `t` outlived its warm period
/// at instant `now`?
pub open spec fn known_expired(t: u64, now: u64) -> bool {
    now >= t + KNOWN_TIMEOUT_TICKS
}

/// An error when sending a frame to a Target.
#[derive(Debug)]
pub enum SendError {
    /// Attempted to send to an identifier no Active peer holds.
    NoMatchingMac,
    /// The peer was found but its outgoing queue is full; the frame is
    /// handed back so the caller can retry later.
    QueueFull(FrameBox),
}

/// An error when attempting to receive a frame from a Target.
#[derive(Debug, PartialEq, Eq, Structural, Clone, Copy)]
pub enum RecvError {
    /// Attempted to receive from an identifier no Active peer holds.
    NoMatchingMac,
    /// The peer was found but has no queued message.
    NoMessage,
}

/// Is the peer at index `i` Active and holding `mac`?
pub open spec fn active_mac_at(peers: Seq<Peer>, mac: u64, i: int) -> bool {
    &&& peers[i].state is Active
    &&& peers[i].mac == mac
}

/// Is the record eligible for a fresh discovery offer?
pub open spec fn is_idle_spec(p: Peer) -> bool {
    &&& p.state is Free
    &&& count_free(p.incoming_pool.flags@) == p.incoming_pool.capacity_spec()
}

/// Every frame queued from the peer at address `addr` begins with that
/// slot's reply header: the serve phase admits no other frame into the
/// queue.
pub open spec fn from_peer_headers_ok(p: Peer, addr: u8) -> bool {
    forall|k: int|
        0 <= k < p.from_peer@.len() ==> (#[trigger] p.from_peer@[k]).data@[0]
            == CmdAddr::ReplyFromAddr(addr).encode_spec()
}

/// How many of the first `upto` records are idle.
pub open spec fn idle_count(peers: Seq<Peer>, upto: int) -> nat
    decreases upto,
{
    if upto <= 0 {
        0
    } else {
        idle_count(peers, upto - 1) + if is_idle_spec(peers[upto - 1]) {
            1nat
        } else {
            0nat
        }
    }
}

/// The identifiers of the Active records, in address order.
pub open spec fn active_macs(peers: Seq<Peer>) -> Seq<u64>
    decreases peers.len(),
{
    if peers.len() == 0 {
        Seq::empty()
    } else {
        active_macs(peers.drop_last()) + if peers.last().state is Active {
            seq![peers.last().mac]
        } else {
            Seq::empty()
        }
    }
}

/// The prefix extension step of [`active_macs`].
proof fn lemma_active_macs_take_step(peers: Seq<Peer>, i: int)
    requires
        0 <= i < peers.len(),
    ensures
        active_macs(peers.take(i + 1)) == active_macs(peers.take(i)) + if peers[i].state
            is Active {
            seq![peers[i].mac]
        } else {
            Seq::<u64>::empty()
        },
{
    assert(peers.take(i + 1).drop_last() =~= peers.take(i));
}

/// Every entry of [`active_macs`] is the identifier of some Active
/// record.
proof fn lemma_active_macs_membership(peers: Seq<Peer>)
    ensures
        forall|k: int|
            0 <= k < active_macs(peers).len() ==> exists|i: int|
                0 <= i < peers.len() && (#[trigger] peers[i]).state is Active && peers[i].mac == (
                #[trigger] active_macs(peers)[k]),
    decreases peers.len(),
{
    if peers.len() > 0 {
        let dl = peers.drop_last();
        lemma_active_macs_membership(dl);
        if peers.last().state is Active {
            assert(active_macs(peers) =~= active_macs(dl).push(peers.last().mac));
        } else {
            assert(active_macs(peers) =~= active_macs(dl));
        }
        assert forall|k: int| 0 <= k < active_macs(peers).len() implies exists|i: int|
            0 <= i < peers.len() && (#[trigger] peers[i]).state is Active && peers[i].mac == (
            #[trigger] active_macs(peers)[k]) by {
            if k < active_macs(dl).len() {
                let i = choose|i: int|
                    0 <= i < dl.len() && (#[trigger] dl[i]).state is Active && dl[i].mac == (
                    #[trigger] active_macs(dl)[k]);
                assert(peers[i] == dl[i]);
                assert(peers[i].state is Active && peers[i].mac == active_macs(peers)[k]);
            } else {
                assert(peers.last().state is Active);
                assert(peers[peers.len() - 1].state is Active && peers[peers.len() - 1].mac
                    == active_macs(peers)[k]);
            }
        }
    }
}

/// Law: with the non-Free identifiers pairwise distinct, the Active
/// identifiers — what `connected` reports — are pairwise distinct too.
pub proof fn lemma_active_macs_distinct(peers: Seq<Peer>)
    requires
        nonfree_macs_distinct(peers),
    ensures
        forall|a: int, b: int|
            0 <= a < b < active_macs(peers).len() ==> active_macs(peers)[a] != active_macs(
                peers,
            )[b],
    decreases peers.len(),
{
    if peers.len() > 0 {
        let dl = peers.drop_last();
        assert(nonfree_macs_distinct(dl)) by {
            assert(forall|i: int| 0 <= i < dl.len() ==> dl[i] == peers[i]);
        }
        lemma_active_macs_distinct(dl);
        lemma_active_macs_membership(dl);
        if peers.last().state is Active {
            assert(active_macs(peers) =~= active_macs(dl).push(peers.last().mac));
        } else {
            assert(active_macs(peers) =~= active_macs(dl));
        }
        assert forall|a: int, b: int|
            0 <= a < b < active_macs(peers).len() implies active_macs(peers)[a] != active_macs(
            peers,
        )[b] by {
            if b < active_macs(dl).len() {
                assert(active_macs(dl)[a] != active_macs(dl)[b]);
            } else {
                assert(peers.last().state is Active);
                assert(active_macs(peers)[a] == active_macs(dl)[a]);
                let i = choose|i: int|
                    0 <= i < dl.len() && (#[trigger] dl[i]).state is Active && dl[i].mac == (
                    #[trigger] active_macs(dl)[a]);
                assert(peers[i] == dl[i]);
                assert(!(peers[i].state is Free) && !(peers[peers.len() - 1].state is Free));
                assert(active_macs(peers)[b] == peers[peers.len() - 1].mac);
            }
        }
    }
}

/// No two non-Free records hold the same identifier.
pub open spec fn nonfree_macs_distinct(peers: Seq<Peer>) -> bool {
    forall|i: int, j: int|
        0 <= i < j < peers.len() && !((#[trigger] peers[i]).state is Free) && !(
        (#[trigger] peers[j]).state is Free) ==> peers[i].mac != peers[j].mac
}

/// Law: when no two non-Free records hold the same identifier, no two
/// peers hold the same Active identifier simultaneously.
pub proof fn lemma_active_uids_distinct(peers: Seq<Peer>)
    requires
        nonfree_macs_distinct(peers),
    ensures
        forall|i: int, j: int|
            0 <= i < j < peers.len() && (#[trigger] peers[i]).state is Active && (
            #[trigger] peers[j]).state is Active ==> peers[i].mac != peers[j].mac,
{
}

/// Law: a table step that rewrites one record without changing its
/// identifier — or frees it — keeps the non-Free identifiers distinct.
/// Every polling-round transition except a fresh claim is of this shape.
pub proof fn lemma_distinct_preserved(pre: Seq<Peer>, post: Seq<Peer>, i: int)
    requires
        nonfree_macs_distinct(pre),
        0 <= i < pre.len(),
        post == pre.update(i, post[i]),
        post[i].mac == pre[i].mac || post[i].state is Free,
        forall|j: int| 0 <= j < pre.len() ==> ((#[trigger] pre[j]).state is Free <==> pre[j].mac == 0),
        post[i].state is Free <==> post[i].mac == 0,
    ensures
        nonfree_macs_distinct(post),
{
    assert forall|a: int, b: int|
        0 <= a < b < post.len() && !((#[trigger] post[a]).state is Free) && !(
        (#[trigger] post[b]).state is Free) implies post[a].mac != post[b].mac by {
        if a != i && b != i {
            assert(post[a] == pre[a] && post[b] == pre[b]);
        } else {
            let o = if a == i {
                b
            } else {
                a
            };
            assert(post[o] == pre[o]);
            assert(post[i].mac == pre[i].mac);
            if pre[i].state is Free {
                assert(pre[i].mac == 0);
                assert(post[i].mac != 0);
            } else {
                assert(pre[i].mac != pre[o].mac);
            }
        }
    }
}

/// Law: recording a fresh claim — a Free record becomes Pending with an
/// identifier no other non-Free record holds — keeps the non-Free
/// identifiers distinct. A claim that echoes an identifier some other
/// record already holds is the one step outside this law; the stale
/// holder then times out on its own.
pub proof fn lemma_distinct_preserved_fresh_claim(
    pre: Seq<Peer>,
    post: Seq<Peer>,
    i: int,
    uid: u64,
)
    requires
        nonfree_macs_distinct(pre),
        0 <= i < pre.len(),
        post == pre.update(i, post[i]),
        post[i].mac == uid,
        forall|j: int|
            0 <= j < pre.len() && j != i && !((#[trigger] pre[j]).state is Free) ==> pre[j].mac
                != uid,
    ensures
        nonfree_macs_distinct(post),
{
}

/// Law: one slot transition of a polling round keeps the Active
/// identifiers pairwise distinct. Every phase function rewrites at most
/// one record and either keeps its identifier or frees the record — save
/// a fresh claim, which [`lemma_distinct_preserved_fresh_claim`] covers.
pub proof fn lemma_round_preserves_uniqueness(pre: Controller, post: Controller, i: int)
    requires
        pre.wf(),
        post.wf(),
        0 <= i < pre.peers@.len(),
        post.only_changed(&pre, i),
        post.peers@[i].mac == pre.peers@[i].mac || post.peers@[i].state is Free,
        nonfree_macs_distinct(pre.peers@),
    ensures
        nonfree_macs_distinct(post.peers@),
        forall|a: int, b: int|
            0 <= a < b < post.peers@.len() && (#[trigger] post.peers@[a]).state is Active && (
            #[trigger] post.peers@[b]).state is Active ==> post.peers@[a].mac != post.peers@[b].mac,
{
    assert(post.peers@ =~= pre.peers@.update(i, post.peers@[i]));
    lemma_distinct_preserved(pre.peers@, post.peers@, i);
    lemma_active_uids_distinct(post.peers@);
}

/// What the serve phase asks of the caller for one slot.
pub enum ServeStep {
    /// The slot is not Active: nothing to do.
    Skip,
    /// The slot's receive pool had no free frame: the error is recorded
    /// and the slot skipped. The returned frames are retired outbound
    /// frames to release.
    Oom(Vec<FrameBox>),
    /// Transmit `wire`, then listen for the reply. `spent` is the
    /// outbound frame the bytes were taken from, to release after the
    /// transfer; without one, `wire` is the bare select header.
    Poll {
        /// The exact bytes to put on the wire.
        wire: Vec<u8>,
        /// The dequeued outbound frame the payload came from, if any.
        spent: Option<FrameBox>,
    },
}

/// What the known phase asks of the caller for one slot.
pub enum KnownAction {
    /// The slot is not Known: nothing to do.
    NotKnown,
    /// The record outlived its warm period and was reset to Free; the
    /// returned frames are retired outbound frames to release.
    Expired(Vec<FrameBox>),
    /// Transmit `wire` (a discovery-success refresh), then listen and
    /// hand the outcome to [`Controller::confirm_reply`].
    Refresh(Vec<u8>),
}

/// Controller interface and data storage: the table of peer records,
/// indexed by logical address.
pub struct Controller {
    /// One record per logical address.
    pub peers: Vec<Peer>,
}

impl Controller {
    /// Validity: a full table of valid records, each holding only its
    /// own slot's replies.
    pub open spec fn wf(&self) -> bool {
        &&& self.peers@.len() == MAX_TARGETS
        &&& forall|i: int| 0 <= i < self.peers@.len() ==> (#[trigger] self.peers@[i]).wf()
        &&& forall|i: int|
            0 <= i < self.peers@.len() ==> from_peer_headers_ok(#[trigger] self.peers@[i], i as u8)
    }

    /// All records are untouched but the one at `i`.
    pub open spec fn only_changed(&self, pre: &Controller, i: int) -> bool {
        &&& self.peers@.len() == pre.peers@.len()
        &&& forall|j: int|
            0 <= j < pre.peers@.len() && j != i ==> #[trigger] self.peers@[j] == pre.peers@[j]
    }

    /// Create a controller whose records are all Free and without
    /// backing pools; [`Controller::init`] hands out the pools.
    pub fn uninit() -> (r: Controller)
        ensures
            r.wf(),
            forall|i: int|
                0 <= i < r.peers@.len() ==> (#[trigger] r.peers@[i]).state is Free
                    && r.peers@[i].to_peer@.len() == 0 && r.peers@[i].from_peer@.len() == 0,
    {
        let mut peers: Vec<Peer> = Vec::new();
        let mut i: usize = 0;
        while i < MAX_TARGETS
            invariant
                i <= MAX_TARGETS,
                peers@.len() == i,
                forall|j: int|
                    0 <= j < i ==> (#[trigger] peers@[j]).wf() && peers@[j].state is Free
                        && peers@[j].to_peer@.len() == 0 && peers@[j].from_peer@.len() == 0,
            decreases MAX_TARGETS - i,
        {
            peers.push(Peer::new());
            i += 1;
        }
        Controller { peers }
    }

    /// Hand every record its receive pool, carved off the front of `sli`
    /// in address order: record `i` receives slots `i*IN .. (i+1)*IN` of
    /// the given pool, whose capacity shrinks by `IN * MAX_TARGETS`.
    pub fn init(&mut self, sli: &mut RawFrameSlice)
        requires
            old(self).wf(),
            old(sli).wf(),
            old(sli).capacity_spec() >= INCOMING_SIZE * MAX_TARGETS,
        ensures
            final(self).wf(),
            final(sli).wf(),
            final(sli).base == old(sli).base + INCOMING_SIZE * MAX_TARGETS,
            final(sli).flags@ == old(sli).flags@.skip((INCOMING_SIZE * MAX_TARGETS) as int),
            final(self).peers@.len() == MAX_TARGETS,
            forall|i: int|
                0 <= i < MAX_TARGETS ==> {
                    let p = #[trigger] final(self).peers@[i];
                    let q = old(self).peers@[i];
                    &&& p.incoming_pool.base == old(sli).base + i * INCOMING_SIZE
                    &&& p.incoming_pool.flags@ == old(sli).flags@.subrange(
                        i * INCOMING_SIZE,
                        (i + 1) * INCOMING_SIZE,
                    )
                    &&& p == (Peer { incoming_pool: p.incoming_pool, ..q })
                },
    {
        let ghost base0 = sli.base;
        let ghost flags0 = sli.flags@;
        let mut i: usize = 0;
        while i < MAX_TARGETS
            invariant
                i <= MAX_TARGETS,
                self.wf(),
                sli.wf(),
                self.peers@.len() == MAX_TARGETS,
                flags0.len() >= INCOMING_SIZE * MAX_TARGETS,
                sli.base == base0 + i * INCOMING_SIZE,
                sli.flags@ =~= flags0.skip((i * INCOMING_SIZE) as int),
                forall|j: int|
                    i <= j < MAX_TARGETS ==> #[trigger] self.peers@[j] == old(self).peers@[j],
                forall|j: int|
                    0 <= j < i ==> {
                        let p = #[trigger] self.peers@[j];
                        let q = old(self).peers@[j];
                        &&& p.incoming_pool.base == base0 + j * INCOMING_SIZE
                        &&& p.incoming_pool.flags@ == flags0.subrange(
                            j * INCOMING_SIZE,
                            (j + 1) * INCOMING_SIZE,
                        )
                        &&& p == (Peer { incoming_pool: p.incoming_pool, ..q })
                    },
            decreases MAX_TARGETS - i,
        {
            let pool: RawFrameSlice;
            if sli.capacity() == INCOMING_SIZE {
                let mut taken = RawFrameSlice {
                    base: sli.base + INCOMING_SIZE,
                    flags: Vec::new(),
                    next_idx: 0,
                };
                core::mem::swap(sli, &mut taken);
                pool = taken;
            } else {
                let mut head = match sli.split(INCOMING_SIZE) {
                    Some(tail) => tail,
                    None => RawFrameSlice::uninit(),  // unreachable: capacity exceeds the split point
                };
                core::mem::swap(sli, &mut head);
                pool = head;
            }
            assert(pool.flags@ =~= flags0.subrange(
                (i * INCOMING_SIZE) as int,
                ((i + 1) * INCOMING_SIZE) as int,
            ));
            assert(sli.flags@ =~= flags0.skip(((i + 1) * INCOMING_SIZE) as int));
            let peer = &mut self.peers[i];
            proof {
                assert(old(self).peers@[i as int].wf());
            }
            peer.set_pool(pool);
            i += 1;
        }
    }

    /// Attempt to enqueue a message for sending to the Active peer that
    /// holds `mac`. Fails with `NoMatchingMac` when no Active record
    /// holds that identifier, and with `QueueFull`, handing the frame
    /// back, when the peer's outgoing queue is at capacity.
    pub fn send(&mut self, mac: u64, frame: crate::frame_pool::SendFrameBox) -> (r: Result<
        (),
        SendError,
    >)
        requires
            old(self).wf(),
            frame.wf(),
        ensures
            final(self).wf(),
            r matches Err(SendError::NoMatchingMac) <==> (forall|i: int|
                0 <= i < old(self).peers@.len() ==> !active_mac_at(old(self).peers@, mac, i)),
            r matches Err(SendError::NoMatchingMac) ==> final(self).peers@ == old(self).peers@,
            r is Ok ==> exists|i: int|
                {
                    &&& 0 <= i < old(self).peers@.len()
                    &&& active_mac_at(old(self).peers@, mac, i)
                    &&& forall|j: int| 0 <= j < i ==> !active_mac_at(old(self).peers@, mac, j)
                    &&& old(self).peers@[i].to_peer@.len() < OUTGOING_SIZE
                    &&& final(self).peers@ == old(self).peers@.update(
                        i,
                        Peer {
                            to_peer: final(self).peers@[i].to_peer,
                            ..old(self).peers@[i]
                        },
                    )
                    &&& final(self).peers@[i].to_peer@ == old(self).peers@[i].to_peer@.push(
                        frame.fb,
                    )
                },
            r matches Err(SendError::QueueFull(back)) ==> back == frame.fb && final(self).peers@
                == old(self).peers@ && exists|i: int|
                {
                    &&& 0 <= i < old(self).peers@.len()
                    &&& active_mac_at(old(self).peers@, mac, i)
                    &&& forall|j: int| 0 <= j < i ==> !active_mac_at(old(self).peers@, mac, j)
                    &&& old(self).peers@[i].to_peer@.len() >= OUTGOING_SIZE
                },
    {
        let n = self.peers.len();
        let mut i: usize = 0;
        while i < n
            invariant
                i <= n,
                n == MAX_TARGETS,
                self.wf(),
                frame.wf(),
                *self == *old(self),
                forall|j: int| 0 <= j < i ==> !active_mac_at(old(self).peers@, mac, j),
            decreases n - i,
        {
            if self.peers[i].is_active_mac(mac) {
                proof {
                    assert(active_mac_at(old(self).peers@, mac, i as int));
                    assert(old(self).peers@[i as int].wf());
                }
                let peer = &mut self.peers[i];
                let res = peer.enqueue_outgoing(frame.into_inner());
                match res {
                    Ok(()) => {
                        proof {
                            assert(self.peers@ == old(self).peers@.update(
                                i as int,
                                self.peers@[i as int],
                            ));
                        }
                        return Ok(());
                    },
                    Err(back) => {
                        proof {
                            assert(self.peers@ =~= old(self).peers@);
                        }
                        return Err(SendError::QueueFull(back));
                    },
                }
            }
            i += 1;
        }
        Err(SendError::NoMatchingMac)
    }

    /// Attempt to receive a message from the Active peer that holds
    /// `mac`: the oldest queued frame, as a validated wire frame. Fails
    /// with `NoMatchingMac` when no Active record holds the identifier,
    /// and with `NoMessage` when the peer's queue is empty.
    pub fn recv_from(&mut self, mac: u64) -> (r: Result<WireFrameBox, RecvError>)
        requires
            old(self).wf(),
        ensures
            final(self).wf(),
            r matches Err(RecvError::NoMatchingMac) <==> (forall|i: int|
                0 <= i < old(self).peers@.len() ==> !active_mac_at(old(self).peers@, mac, i)),
            r matches Err(RecvError::NoMatchingMac) ==> final(self).peers@ == old(self).peers@,
            r matches Err(RecvError::NoMessage) ==> final(self).peers@ == old(self).peers@
                && exists|i: int|
                {
                    &&& 0 <= i < old(self).peers@.len()
                    &&& active_mac_at(old(self).peers@, mac, i)
                    &&& forall|j: int| 0 <= j < i ==> !active_mac_at(old(self).peers@, mac, j)
                    &&& old(self).peers@[i].from_peer@.len() == 0
                },
            r matches Ok(wfb) ==> wfb.wf() && exists|i: int|
                {
                    &&& 0 <= i < old(self).peers@.len()
                    &&& active_mac_at(old(self).peers@, mac, i)
                    &&& forall|j: int| 0 <= j < i ==> !active_mac_at(old(self).peers@, mac, j)
                    &&& old(self).peers@[i].from_peer@.len() > 0
                    &&& wfb.fb == old(self).peers@[i].from_peer@[0]
                    &&& CmdAddr::decode_spec(wfb.fb.data@[0]) == Ok::<CmdAddr, crate::CmdAddrError>(
                        CmdAddr::ReplyFromAddr(i as u8),
                    )
                    &&& final(self).peers@ == old(self).peers@.update(
                        i,
                        Peer {
                            from_peer: final(self).peers@[i].from_peer,
                            ..old(self).peers@[i]
                        },
                    )
                    &&& final(self).peers@[i].from_peer@ == old(self).peers@[i].from_peer@.skip(1)
                },
    {
        let n = self.peers.len();
        let mut i: usize = 0;
        while i < n
            invariant
                i <= n,
                n == MAX_TARGETS,
                self.wf(),
                *self == *old(self),
                forall|j: int| 0 <= j < i ==> !active_mac_at(old(self).peers@, mac, j),
            decreases n - i,
        {
            if self.peers[i].is_active_mac(mac) {
                proof {
                    assert(active_mac_at(old(self).peers@, mac, i as int));
                    assert(old(self).peers@[i as int].wf());
                }
                let peer = &mut self.peers[i];
                let res = peer.dequeue_incoming();
                match res {
                    Some(fb) => {
                        proof {
                            assert(self.peers@ == old(self).peers@.update(
                                i as int,
                                self.peers@[i as int],
                            ));
                            assert(from_peer_headers_ok(old(self).peers@[i as int], i as u8));
                            crate::lemma_encode_decode_identity(CmdAddr::ReplyFromAddr(i as u8));
                        }
                        return Ok(WireFrameBox::new_unchecked(fb));
                    },
                    None => {
                        proof {
                            assert(self.peers@ =~= old(self).peers@);
                        }
                        return Err(RecvError::NoMessage);
                    },
                }
            }
            i += 1;
        }
        Err(RecvError::NoMatchingMac)
    }

    /// The identifiers of all Active peers, in address order. When no
    /// two non-Free records hold the same identifier — every polling
    /// round but a duplicate-identifier claim preserves this, see
    /// [`lemma_round_preserves_uniqueness`] — the entries are pairwise
    /// distinct.
    pub fn connected(&self) -> (r: Vec<u64>)
        requires
            self.wf(),
        ensures
            r@ == active_macs(self.peers@),
            nonfree_macs_distinct(self.peers@) ==> forall|a: int, b: int|
                0 <= a < b < r@.len() ==> r@[a] != r@[b],
    {
        proof {
            if nonfree_macs_distinct(self.peers@) {
                lemma_active_macs_distinct(self.peers@);
            }
        }
        let n = self.peers.len();
        let mut r: Vec<u64> = Vec::new();
        let mut i: usize = 0;
        assert(self.peers@.take(0) =~= Seq::<Peer>::empty());
        while i < n
            invariant
                i <= n,
                n == self.peers@.len(),
                r@ == active_macs(self.peers@.take(i as int)),
            decreases n - i,
        {
            proof {
                lemma_active_macs_take_step(self.peers@, i as int);
            }
            if self.peers[i].is_active() {
                r.push(self.peers[i].mac());
            }
            i += 1;
        }
        assert(self.peers@.take(n as int) =~= self.peers@);
        r
    }

    /// Warm-boot hint: seed idle records as Known peers with the given
    /// identifiers, drawn from the end of the list, one per idle slot in
    /// address order, until the list runs out.
    pub fn add_known_macs(&mut self, macs: &Vec<u64>, now: u64)
        requires
            old(self).wf(),
            forall|k: int| 0 <= k < macs@.len() ==> macs@[k] != 0,
        ensures
            final(self).wf(),
            final(self).peers@.len() == old(self).peers@.len(),
            forall|i: int|
                0 <= i < old(self).peers@.len() && !is_idle_spec(old(self).peers@[i])
                    ==> #[trigger] final(self).peers@[i] == old(self).peers@[i],
            forall|i: int|
                0 <= i < old(self).peers@.len() && is_idle_spec(old(self).peers@[i]) ==> {
                    let rank = idle_count(old(self).peers@, i);
                    let p = #[trigger] final(self).peers@[i];
                    if rank < macs@.len() {
                        &&& p.state == PeerState::Known(now)
                        &&& p.mac == macs@[macs@.len() - 1 - rank]
                    } else {
                        p == old(self).peers@[i]
                    }
                },
    {
        let n = self.peers.len();
        let total = macs.len();
        let mut used: usize = 0;
        let mut i: usize = 0;
        while i < n
            invariant
                i <= n,
                n == MAX_TARGETS,
                total == macs@.len(),
                forall|k: int| 0 <= k < macs@.len() ==> macs@[k] != 0,
                self.wf(),
                self.peers@.len() == old(self).peers@.len(),
                used == if idle_count(old(self).peers@, i as int) < total as nat {
                    idle_count(old(self).peers@, i as int)
                } else {
                    total as nat
                },
                forall|j: int| i <= j < n ==> #[trigger] self.peers@[j] == old(self).peers@[j],
                forall|j: int|
                    0 <= j < i && !is_idle_spec(old(self).peers@[j]) ==> #[trigger] self.peers@[j]
                        == old(self).peers@[j],
                forall|j: int|
                    0 <= j < i && is_idle_spec(old(self).peers@[j]) ==> {
                        let rank = idle_count(old(self).peers@, j);
                        let p = #[trigger] self.peers@[j];
                        if rank < macs@.len() {
                            &&& p.state == PeerState::Known(now)
                            &&& p.mac == macs@[macs@.len() - 1 - rank]
                        } else {
                            p == old(self).peers@[j]
                        }
                    },
            decreases n - i,
        {
            let idle = self.peers[i].is_idle();
            if idle && used < total {
                let mac = macs[total - 1 - used];
                let peer = &mut self.peers[i];
                proof {
                    assert(old(self).peers@[i as int].wf());
                }
                let _retired = peer.promote_to_known_with_mac(mac, now);
                used += 1;
            }
            i += 1;
        }
    }

    /// Route a retired frame back to the receive pool it was allocated
    /// from, by its slot index. Frames that belong to no peer's pool —
    /// they came from the caller's own pool — are handed back.
    pub fn release_frame(&mut self, fb: FrameBox) -> (r: Result<(), FrameBox>)
        requires
            old(self).wf(),
        ensures
            final(self).wf(),
            r matches Err(back) ==> back == fb && final(self).peers@ == old(self).peers@ && forall|
                i: int,
            |
                0 <= i < old(self).peers@.len() ==> !((#[trigger] old(
                    self,
                ).peers@[i]).incoming_pool.contains_slot(fb.slot)
                    && old(self).peers@[i].incoming_pool.flags@[fb.slot - old(
                    self,
                ).peers@[i].incoming_pool.base] != 0u8),
            r is Ok ==> exists|i: int|
                {
                    &&& 0 <= i < old(self).peers@.len()
                    &&& old(self).peers@[i].incoming_pool.contains_slot(fb.slot)
                    &&& final(self).only_changed(old(self), i)
                    &&& final(self).peers@[i] == (Peer {
                        incoming_pool: final(self).peers@[i].incoming_pool,
                        ..old(self).peers@[i]
                    })
                    &&& Peer::pool_only_freed(&final(self).peers@[i], &old(self).peers@[i])
                },
    {
        let n = self.peers.len();
        let mut i: usize = 0;
        let mut cur = fb;
        while i < n
            invariant
                i <= n,
                n == MAX_TARGETS,
                self.wf(),
                self.peers@ == old(self).peers@,
                cur == fb,
                forall|j: int|
                    0 <= j < i ==> !((#[trigger] old(self).peers@[j]).incoming_pool.contains_slot(
                        fb.slot,
                    ) && old(self).peers@[j].incoming_pool.flags@[fb.slot - old(
                        self,
                    ).peers@[j].incoming_pool.base] != 0u8),
            decreases n - i,
        {
            proof {
                assert(old(self).peers@[i as int].wf());
            }
            let peer = &mut self.peers[i];
            let res = peer.incoming_pool.release(cur);
            match res {
                Ok(()) => {
                    proof {
                        assert(self.peers@ == old(self).peers@.update(
                            i as int,
                            self.peers@[i as int],
                        ));
                        assert(old(self).peers@[i as int].incoming_pool.contains_slot(fb.slot));
                    }
                    return Ok(());
                },
                Err(back) => {
                    proof {
                        assert(self.peers@ =~= old(self).peers@);
                    }
                    cur = back;
                },
            }
            i += 1;
        }
        Err(cur)
    }

    /// Serve phase, first half, for slot `i`: if the record is Active,
    /// produce the select frame to transmit — the oldest queued outbound
    /// frame with its header byte set, or a bare select header. A slot
    /// whose receive pool has no free frame cannot take a reply and is
    /// skipped with one error recorded.
    pub fn serve_prepare(&mut self, i: usize, now: u64) -> (r: ServeStep)
        requires
            old(self).wf(),
            i < MAX_TARGETS,
        ensures
            final(self).wf(),
            final(self).only_changed(old(self), i as int),
            !(old(self).peers@[i as int].state is Active) ==> (r is Skip && final(self).peers@
                == old(self).peers@),
            r is Skip ==> !(old(self).peers@[i as int].state is Active),
            r matches ServeStep::Oom(dropped) ==> {
                &&& old(self).peers@[i as int].state is Active
                &&& count_free(old(self).peers@[i as int].incoming_pool.flags@) == 0
                &&& errored(
                    final(self).peers@[i as int],
                    old(self).peers@[i as int],
                    now,
                    dropped@,
                )
            },
            r matches ServeStep::Poll { wire, spent } ==> {
                let pre = old(self).peers@[i as int];
                let post = final(self).peers@[i as int];
                &&& pre.state is Active
                &&& count_free(pre.incoming_pool.flags@) > 0
                &&& 1 <= wire@.len() <= MAX_FRAME_LEN
                &&& wire@[0] == CmdAddr::SelectAddr(i as u8).encode_spec()
                &&& if pre.to_peer@.len() > 0 {
                    &&& spent == Some(pre.to_peer@[0])
                    &&& wire@.skip(1) == pre.to_peer@[0].bytes().skip(1)
                    &&& wire@.len() == pre.to_peer@[0].len
                    &&& post == (Peer { to_peer: post.to_peer, ..pre })
                    &&& post.to_peer@ == pre.to_peer@.skip(1)
                } else {
                    &&& spent is None
                    &&& wire@.len() == 1
                    &&& post == pre
                }
            },
    {
        if !self.peers[i].is_active() {
            return ServeStep::Skip;
        }
        let peer = &mut self.peers[i];
        proof {
            assert(old(self).peers@[i as int].wf());
        }
        if peer.incoming_pool.count_allocatable() == 0 {
            let dropped = peer.increment_error(now);
            return ServeStep::Oom(dropped);
        }
        let header = CmdAddr::SelectAddr(i as u8).to_byte();
        match peer.dequeue_outgoing() {
            Some(fb) => {
                let mut wire: Vec<u8> = Vec::new();
                wire.push(header);
                let n = fb.len();
                let mut k: usize = 1;
                while k < n
                    invariant
                        1 <= k <= n,
                        n == fb.len,
                        fb.wf(),
                        wire@.len() == k,
                        wire@[0] == header,
                        forall|j: int| 1 <= j < k ==> wire@[j] == fb.bytes()[j],
                    decreases n - k,
                {
                    wire.push(fb.get(k));
                    k += 1;
                }
                assert(wire@.skip(1) =~= fb.bytes().skip(1));
                ServeStep::Poll { wire, spent: Some(fb) }
            },
            None => {
                let mut wire: Vec<u8> = Vec::new();
                wire.push(header);
                ServeStep::Poll { wire, spent: None }
            },
        }
    }

    /// Serve phase, second half, for slot `i`: classify the reply heard
    /// within the listen window. A reply headed `ReplyFrom(i)` clears the
    /// error counter; if it also carries a payload, the whole frame is
    /// copied into a frame from the slot's receive pool and queued for
    /// the user. A missing, empty or alien reply records one error.
    pub fn serve_reply(&mut self, i: usize, reply: &Vec<u8>, now: u64) -> (dropped: Vec<FrameBox>)
        requires
            old(self).wf(),
            i < MAX_TARGETS,
            reply@.len() <= MAX_FRAME_LEN,
        ensures
            final(self).wf(),
            final(self).only_changed(old(self), i as int),
            ({
                let pre = old(self).peers@[i as int];
                let post = final(self).peers@[i as int];
                let good = reply@.len() >= 1 && reply@[0] == CmdAddr::ReplyFromAddr(
                    i as u8,
                ).encode_spec();
                if good {
                    if reply@.len() == 1 {
                        post == (Peer { counter: 0u8, ..pre }) && dropped@.len() == 0
                    } else if count_free(pre.incoming_pool.flags@) > 0 && pre.from_peer@.len()
                        < INCOMING_SIZE {
                        &&& post.state == pre.state
                        &&& post.mac == pre.mac
                        &&& post.counter == 0
                        &&& post.to_peer == pre.to_peer
                        &&& post.from_peer@.len() == pre.from_peer@.len() + 1
                        &&& post.from_peer@.take(pre.from_peer@.len() as int) == pre.from_peer@
                        &&& post.from_peer@.last().bytes() == reply@
                        &&& pre.incoming_pool.contains_slot(post.from_peer@.last().slot)
                        &&& post.incoming_pool.base == pre.incoming_pool.base
                        &&& post.incoming_pool.capacity_spec() == pre.incoming_pool.capacity_spec()
                        &&& dropped@.len() == 0
                    } else {
                        errored(post, pre, now, dropped@)
                    }
                } else {
                    errored(post, pre, now, dropped@)
                }
            }),
    {
        let ghost pre = self.peers@[i as int];
        proof {
            assert(old(self).peers@[i as int].wf());
        }
        let good = reply.len() >= 1 && reply[0] == CmdAddr::ReplyFromAddr(i as u8).to_byte();
        let peer = &mut self.peers[i];
        if !good {
            return peer.increment_error(now);
        }
        if reply.len() > 1 {
            if peer.from_peer.len() >= INCOMING_SIZE {
                return peer.increment_error(now);
            }
            match peer.incoming_pool.allocate_raw() {
                Some(mut rx) => {
                    peer.set_success();
                    rx.fill_from(reply);
                    proof {
                        crate::lemma_encode_truncates(CmdAddr::ReplyFromAddr(i as u8));
                        assert(rx.bytes()[0] == reply@[0]);
                        assert(rx.bytes()[0] == rx.data@[0]);
                    }
                    let ghost rx0 = rx;
                    peer.enqueue_incoming(rx);
                    proof {
                        assert(peer.from_peer@ == pre.from_peer@.push(rx0));
                        assert(peer.from_peer@.take(pre.from_peer@.len() as int)
                            =~= pre.from_peer@);
                    }
                    Vec::new()
                },
                None => peer.increment_error(now),
            }
        } else {
            peer.set_success();
            Vec::new()
        }
    }

    /// Record one error — a timeout, or a receive failure the caller
    /// will also bubble up — against slot `i`.
    pub fn record_error(&mut self, i: usize, now: u64) -> (dropped: Vec<FrameBox>)
        requires
            old(self).wf(),
            i < MAX_TARGETS,
        ensures
            final(self).wf(),
            final(self).only_changed(old(self), i as int),
            errored(final(self).peers@[i as int], old(self).peers@[i as int], now, dropped@),
    {
        let peer = &mut self.peers[i];
        proof {
            assert(old(self).peers@[i as int].wf());
        }
        peer.increment_error(now)
    }

    /// Pending phase, first half, for slot `i`: if the record is
    /// Pending, produce the 9-byte confirmation to transmit — the
    /// discovery-success header for `i` followed by the claimed
    /// identifier, little-endian.
    pub fn pending_prepare(&self, i: usize) -> (r: Option<Vec<u8>>)
        requires
            self.wf(),
            i < MAX_TARGETS,
        ensures
            r is Some <==> self.peers@[i as int].state is Pending,
            r matches Some(wire) ==> {
                &&& wire@.len() == 9
                &&& wire@[0] == CmdAddr::DiscoverySuccess(i as u8).encode_spec()
                &&& wire@.skip(1) == spec_u64_to_le_bytes(self.peers@[i as int].mac)
            },
    {
        match self.peers[i].is_pending() {
            Some(mac) => Some(success_wire(i as u8, mac)),
            None => None,
        }
    }

    /// Pending and known phases, second half, for slot `i`: classify the
    /// reply to a discovery-success confirmation. Exactly the 1-byte
    /// acknowledgement `ReplyFrom(i)` promotes the record to Active;
    /// anything else records one error.
    pub fn confirm_reply(&mut self, i: usize, reply: &Vec<u8>, now: u64) -> (dropped: Vec<
        FrameBox,
    >)
        requires
            old(self).wf(),
            i < MAX_TARGETS,
            old(self).peers@[i as int].state is Pending || old(self).peers@[i as int].state
                is Known,
        ensures
            final(self).wf(),
            final(self).only_changed(old(self), i as int),
            ({
                let pre = old(self).peers@[i as int];
                let post = final(self).peers@[i as int];
                let good = reply@.len() == 1 && reply@[0] == CmdAddr::ReplyFromAddr(
                    i as u8,
                ).encode_spec();
                if good {
                    &&& post.state is Active
                    &&& post.mac == pre.mac
                    &&& post.counter == 0
                    &&& post.to_peer@.len() == 0
                    &&& post.from_peer@.len() == 0
                    &&& Peer::pool_only_freed(&post, &pre)
                    &&& dropped@ == pre.to_peer@
                } else {
                    errored(post, pre, now, dropped@)
                }
            }),
    {
        let peer = &mut self.peers[i];
        proof {
            assert(old(self).peers@[i as int].wf());
        }
        let good = reply.len() == 1 && reply[0] == CmdAddr::ReplyFromAddr(i as u8).to_byte();
        if good {
            peer.promote_to_active()
        } else {
            peer.increment_error(now)
        }
    }

    /// Known phase, first half, for slot `i`: a Known record that
    /// outlived its warm period at the start of the round is reset to
    /// Free before any refresh is attempted; a fresh one gets the same
    /// discovery-success confirmation as a Pending record.
    pub fn known_check(&mut self, i: usize, now: u64) -> (r: KnownAction)
        requires
            old(self).wf(),
            i < MAX_TARGETS,
        ensures
            final(self).wf(),
            final(self).only_changed(old(self), i as int),
            !(old(self).peers@[i as int].state is Known) ==> (r is NotKnown && final(self).peers@
                == old(self).peers@),
            r is NotKnown ==> !(old(self).peers@[i as int].state is Known),
            r matches KnownAction::Expired(dropped) ==> {
                let pre = old(self).peers@[i as int];
                let post = final(self).peers@[i as int];
                &&& pre.state matches PeerState::Known(t) && known_expired(t, now)
                &&& post.state is Free
                &&& post.mac == 0
                &&& post.counter == 0
                &&& post.to_peer@.len() == 0
                &&& post.from_peer@.len() == 0
                &&& Peer::pool_only_freed(&post, &pre)
                &&& dropped@ == pre.to_peer@
            },
            r matches KnownAction::Refresh(wire) ==> {
                let pre = old(self).peers@[i as int];
                &&& pre.state matches PeerState::Known(t) && !known_expired(t, now)
                &&& final(self).peers@ == old(self).peers@
                &&& wire@.len() == 9
                &&& wire@[0] == CmdAddr::DiscoverySuccess(i as u8).encode_spec()
                &&& wire@.skip(1) == spec_u64_to_le_bytes(pre.mac)
            },
    {
        let (mac, t) = match self.peers[i].is_known() {
            Some(pair) => pair,
            None => {
                return KnownAction::NotKnown;
            },
        };
        if now >= KNOWN_TIMEOUT_TICKS && now - KNOWN_TIMEOUT_TICKS >= t {
            let peer = &mut self.peers[i];
            proof {
                assert(old(self).peers@[i as int].wf());
            }
            KnownAction::Expired(peer.reset_to_free())
        } else {
            KnownAction::Refresh(success_wire(i as u8, mac))
        }
    }

    /// Offer phase, first half: the slot to offer this round, if any —
    /// the first record that is Free with a fully free receive pool.
    /// At most one address is offered per polling round.
    pub fn find_idle(&self) -> (r: Option<usize>)
        requires
            self.wf(),
        ensures
            r is None ==> forall|j: int|
                0 <= j < self.peers@.len() ==> !is_idle_spec(#[trigger] self.peers@[j]),
            r matches Some(i) ==> i < MAX_TARGETS && is_idle_spec(self.peers@[i as int]) && forall|
                j: int,
            | 0 <= j < i ==> !is_idle_spec(#[trigger] self.peers@[j]),
    {
        let n = self.peers.len();
        let mut i: usize = 0;
        while i < n
            invariant
                i <= n,
                n == self.peers@.len() == MAX_TARGETS,
                self.wf(),
                forall|j: int| 0 <= j < i ==> !is_idle_spec(#[trigger] self.peers@[j]),
            decreases n - i,
        {
            if self.peers[i].is_idle() {
                return Some(i);
            }
            i += 1;
        }
        None
    }

    /// Offer phase, the frame to transmit: the discovery-offer header
    /// for slot `i` followed by the caller's 8 challenge bytes, drawn
    /// from its randomness source.
    pub fn offer_prepare(&self, i: usize, challenge: &Vec<u8>) -> (wire: Vec<u8>)
        requires
            i < MAX_TARGETS,
            challenge@.len() == 8,
        ensures
            wire@.len() == 9,
            wire@[0] == CmdAddr::DiscoveryOffer(i as u8).encode_spec(),
            wire@.skip(1) == challenge@,
    {
        let mut wire: Vec<u8> = Vec::new();
        wire.push(CmdAddr::DiscoveryOffer(i as u8).to_byte());
        let mut k: usize = 0;
        while k < 8
            invariant
                k <= 8,
                challenge@.len() == 8,
                wire@.len() == k + 1,
                wire@[0] == CmdAddr::DiscoveryOffer(i as u8).encode_spec(),
                forall|j: int| 0 <= j < k ==> wire@[j + 1] == challenge@[j],
            decreases 8 - k,
        {
            wire.push(challenge[k]);
            k += 1;
        }
        assert(wire@.skip(1) =~= challenge@);
        wire
    }

    /// Offer phase, second half, for slot `i`: classify the reply to a
    /// discovery offer. A 9-byte reply headed `DiscoveryClaim(i)` is a
    /// claim: XOR-folding its body with the original challenge recovers
    /// the claimant's identifier, and the record becomes Pending with it.
    /// Anything else — no reply, an alien frame, a recovered identifier
    /// of zero (which the data model reserves for Free slots), or a slot
    /// no longer Free — is silently ignored: the slot is Free, so no
    /// error is counted against it.
    pub fn offer_reply(&mut self, i: usize, challenge: &Vec<u8>, reply: &Vec<u8>) -> (dropped: Vec<
        FrameBox,
    >)
        requires
            old(self).wf(),
            i < MAX_TARGETS,
            challenge@.len() == 8,
        ensures
            final(self).wf(),
            final(self).only_changed(old(self), i as int),
            ({
                let pre = old(self).peers@[i as int];
                let post = final(self).peers@[i as int];
                let claim = reply@.len() == 9 && reply@[0] == CmdAddr::DiscoveryClaim(
                    i as u8,
                ).encode_spec();
                let uid = spec_u64_from_le_bytes(xor_seq(challenge@, reply@.subrange(1, 9)));
                if claim && pre.state is Free && uid != 0 {
                    &&& post.state is Pending
                    &&& post.mac == uid
                    &&& post.counter == 0
                    &&& post.to_peer@.len() == 0
                    &&& post.from_peer@.len() == 0
                    &&& Peer::pool_only_freed(&post, &pre)
                    &&& dropped@ == pre.to_peer@
                } else {
                    post == pre && dropped@.len() == 0
                }
            }),
    {
        let claim = reply.len() == 9 && reply[0] == CmdAddr::DiscoveryClaim(i as u8).to_byte();
        if !claim {
            return Vec::new();
        }
        let mut body: Vec<u8> = Vec::new();
        let mut k: usize = 1;
        while k < 9
            invariant
                1 <= k <= 9,
                reply@.len() == 9,
                body@ =~= reply@.subrange(1, k as int),
            decreases 9 - k,
        {
            body.push(reply[k]);
            k += 1;
        }
        assert(body@ =~= reply@.subrange(1, 9));
        let folded = crate::xor_bytes(challenge, &body);
        let uid = u64_from_le_bytes(folded.as_slice());
        if uid == 0 {
            return Vec::new();
        }
        if !matches!(self.peers[i].state, PeerState::Free) {
            return Vec::new();
        }
        let peer = &mut self.peers[i];
        proof {
            assert(old(self).peers@[i as int].wf());
        }
        peer.promote_to_pending(uid)
    }
}

/// The 9-byte discovery-success confirmation for address `addr` carrying
/// identifier `mac`, little-endian.
fn success_wire(addr: u8, mac: u64) -> (wire: Vec<u8>)
    ensures
        wire@.len() == 9,
        wire@[0] == CmdAddr::DiscoverySuccess(addr).encode_spec(),
        wire@.skip(1) == spec_u64_to_le_bytes(mac),
{
    let mac_bytes = u64_to_le_bytes(mac);
    let mut wire: Vec<u8> = Vec::new();
    wire.push(CmdAddr::DiscoverySuccess(addr).to_byte());
    let mut k: usize = 0;
    while k < 8
        invariant
            k <= 8,
            mac_bytes@.len() == 8,
            mac_bytes@ == spec_u64_to_le_bytes(mac),
            wire@.len() == k + 1,
            wire@[0] == CmdAddr::DiscoverySuccess(addr).encode_spec(),
            forall|j: int| 0 <= j < k ==> wire@[j + 1] == mac_bytes@[j],
        decreases 8 - k,
    {
        wire.push(mac_bytes[k]);
        k += 1;
    }
    assert(wire@.skip(1) =~= mac_bytes@);
    wire
}

} // verus!
