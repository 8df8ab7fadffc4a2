//! Frame pool
//!
//! A specialized pool allocator for frames of `1..=255` bytes. A backing
//! store of slots is handed out as a [`RawFrameSlice`]; a slice can be
//! split into disjoint sub-pools, and allocation hands out single-owner
//! [`FrameBox`] handles. Each slot carries a flag byte: `0` means the slot
//! is free, any other value means it is allocated and records the handle's
//! length at the allocation boundary. Only the slice makes the
//! zero-to-nonzero transition (allocation); releasing a handle makes the
//! nonzero-to-zero transition and returns the slot to the pool.

use vstd::prelude::*;

use crate::CmdAddr;
use crate::CmdAddrError;

verus! {

/// Greatest number of bytes a frame can hold.
pub const MAX_FRAME_LEN: usize = 255;

/// How many flag bytes of a pool are zero, i.e. how many slots are free.
pub open spec fn count_free(s: Seq<u8>) -> nat
    decreases s.len(),
{
    if s.len() == 0 {
        0
    } else {
        count_free(s.drop_last()) + if s.last() == 0u8 {
            1nat
        } else {
            0nat
        }
    }
}

/// A pool with no zero flag byte has no free slot, and conversely.
pub proof fn lemma_count_free_zero(s: Seq<u8>)
    ensures
        count_free(s) == 0 <==> (forall|i: int| 0 <= i < s.len() ==> s[i] != 0u8),
    decreases s.len(),
{
    if s.len() > 0 {
        lemma_count_free_zero(s.drop_last());
        if count_free(s) == 0 {
            assert(forall|i: int|
                0 <= i < s.len() - 1 ==> s[i] == s.drop_last()[i] && s[i] != 0u8);
        } else {
            if s.last() == 0u8 {
                assert(s[s.len() - 1] == 0u8);
            } else {
                let j = choose|j: int| 0 <= j < s.len() - 1 && s.drop_last()[j] == 0u8;
                assert(s[j] == 0u8);
            }
        }
    }
}

/// Updating one flag byte moves the free count by exactly the change at
/// that position.
pub proof fn lemma_count_free_update(s: Seq<u8>, i: int, v: u8)
    requires
        0 <= i < s.len(),
    ensures
        count_free(s.update(i, v)) == count_free(s) - (if s[i] == 0u8 {
            1nat
        } else {
            0nat
        }) + (if v == 0u8 {
            1nat
        } else {
            0nat
        }),
    decreases s.len(),
{
    let t = s.update(i, v);
    if i == s.len() - 1 {
        assert(t.drop_last() =~= s.drop_last());
    } else {
        assert(t.drop_last() =~= s.drop_last().update(i, v));
        lemma_count_free_update(s.drop_last(), i, v);
    }
}

/// The first free slot at or after `lo` and before `hi`, if any.
pub open spec fn first_free_in(s: Seq<u8>, lo: int, hi: int) -> Option<int>
    decreases hi - lo,
{
    if lo >= hi {
        None
    } else if s[lo] == 0u8 {
        Some(lo)
    } else {
        first_free_in(s, lo + 1, hi)
    }
}

/// The slot the rotating scan claims: the first free slot at or after
/// `start`, wrapping around to the front when the tail holds none.
pub open spec fn next_free_slot(s: Seq<u8>, start: int) -> Option<int> {
    match first_free_in(s, start, s.len() as int) {
        Some(i) => Some(i),
        None => first_free_in(s, 0, start),
    }
}

/// A scan that found nothing keeps finding nothing when extended by a
/// non-free slot.
proof fn lemma_first_free_extend(s: Seq<u8>, lo: int, hi: int)
    requires
        lo <= hi < s.len(),
        first_free_in(s, lo, hi) is None,
        s[hi] != 0u8,
    ensures
        first_free_in(s, lo, hi + 1) is None,
    decreases hi - lo,
{
    if lo < hi {
        lemma_first_free_extend(s, lo + 1, hi);
    } else {
        assert(first_free_in(s, hi + 1, hi + 1) is None);
    }
}

/// A free slot right after a fruitless scan is the first free one of the
/// extended range.
proof fn lemma_first_free_found(s: Seq<u8>, lo: int, mid: int, hi: int)
    requires
        lo <= mid < hi <= s.len(),
        first_free_in(s, lo, mid) is None,
        s[mid] == 0u8,
    ensures
        first_free_in(s, lo, hi) == Some(mid),
    decreases mid - lo,
{
    if lo < mid {
        lemma_first_free_found(s, lo + 1, mid, hi);
    }
}

/// A fruitless scan means every slot of its range is allocated.
proof fn lemma_first_free_none_means(s: Seq<u8>, lo: int, hi: int)
    requires
        0 <= lo <= hi <= s.len(),
        first_free_in(s, lo, hi) is None,
    ensures
        forall|j: int| lo <= j < hi ==> s[j] != 0u8,
    decreases hi - lo,
{
    if lo < hi {
        lemma_first_free_none_means(s, lo + 1, hi);
    }
}

/// When neither the tail from `start` nor the head before it holds a
/// free slot, no slot is free.
proof fn lemma_none_free_anywhere(s: Seq<u8>, start: int)
    requires
        0 <= start <= s.len(),
        first_free_in(s, start, s.len() as int) is None,
        first_free_in(s, 0, start) is None,
    ensures
        forall|j: int| 0 <= j < s.len() ==> s[j] != 0u8,
{
    lemma_first_free_none_means(s, start, s.len() as int);
    lemma_first_free_none_means(s, 0, start);
}

/// The free count of a prefix grows by one exactly on the free slots.
proof fn lemma_count_free_take_step(s: Seq<u8>, i: int)
    requires
        0 <= i < s.len(),
    ensures
        count_free(s.take(i + 1)) == count_free(s.take(i)) + (if s[i] == 0u8 {
            1nat
        } else {
            0nat
        }),
{
    assert(s.take(i + 1).drop_last() =~= s.take(i));
}

/// An allocated frame: unique ownership of one slot's storage.
///
/// Holds `1..=255` visible bytes; `slot` names the backing slot in the
/// storage the owning [`RawFrameSlice`] was carved from, and is the key a
/// release hands back to the pool.
#[derive(Debug)]
pub struct FrameBox {
    /// The slot's backing storage, always [`MAX_FRAME_LEN`] bytes.
    pub data: Vec<u8>,
    /// The visible length, between 1 and [`MAX_FRAME_LEN`].
    pub len: u8,
    /// Index of the backing slot within the original storage.
    pub slot: usize,
}

impl FrameBox {
    /// Structural validity of a handle.
    pub open spec fn wf(&self) -> bool {
        &&& self.data@.len() == MAX_FRAME_LEN
        &&& 1 <= self.len <= MAX_FRAME_LEN
    }

    /// The visible bytes: the first `len` bytes of the slot.
    pub open spec fn bytes(&self) -> Seq<u8> {
        self.data@.take(self.len as int)
    }

    /// The visible length in bytes.
    pub fn len(&self) -> (r: usize)
        ensures
            r == self.len,
    {
        self.len as usize
    }

    /// Sets the visible length of the storage. A length of zero would
    /// alias the pool's free sentinel and lengths above 255 do not fit a
    /// slot, so both are excluded; such a length is refused and leaves
    /// the frame unchanged.
    pub fn set_len(&mut self, len: usize)
        requires
            old(self).wf(),
            1 <= len <= MAX_FRAME_LEN,
        ensures
            final(self).wf(),
            final(self).len == len,
            final(self).data == old(self).data,
            final(self).slot == old(self).slot,
    {
        if len == 0 || len > MAX_FRAME_LEN {
            return ;
        }
        self.len = len as u8;
    }

    /// Read the visible byte at `i`.
    pub fn get(&self, i: usize) -> (r: u8)
        requires
            self.wf(),
            i < self.len,
        ensures
            r == self.bytes()[i as int],
    {
        self.data[i]
    }

    /// Write the visible byte at `i`.
    pub fn set(&mut self, i: usize, b: u8)
        requires
            old(self).wf(),
            i < old(self).len,
        ensures
            final(self).wf(),
            final(self).data@ == old(self).data@.update(i as int, b),
            final(self).len == old(self).len,
            final(self).slot == old(self).slot,
    {
        self.data.set(i, b);
    }

    /// Borrow the visible bytes as a slice.
    pub fn as_bytes(&self) -> (r: &[u8])
        requires
            self.wf(),
        ensures
            r@ == self.bytes(),
    {
        vstd::slice::slice_subrange(self.data.as_slice(), 0, self.len as usize)
    }

    /// Overwrite the frame with the given bytes: the visible length
    /// becomes `src.len()` and the visible bytes become `src`.
    pub fn fill_from(&mut self, src: &Vec<u8>)
        requires
            old(self).wf(),
            1 <= src@.len() <= MAX_FRAME_LEN,
        ensures
            final(self).wf(),
            final(self).len == src@.len(),
            final(self).bytes() == src@,
            final(self).slot == old(self).slot,
    {
        let n = src.len();
        let mut i: usize = 0;
        while i < n
            invariant
                self.wf(),
                i <= n,
                n == src@.len() <= MAX_FRAME_LEN,
                self.slot == old(self).slot,
                self.len == old(self).len,
                forall|j: int| 0 <= j < i ==> self.data@[j] == src@[j],
            decreases n - i,
        {
            self.data.set(i, src[i]);
            i += 1;
        }
        self.len = n as u8;
        assert(self.bytes() =~= src@);
    }
}

/// A sliceable allocation pool: a contiguous run of slots, owned
/// exclusively. `base` is the index of the run's first slot within the
/// original storage; `flags@[i]` is the flag byte of slot `base + i`.
pub struct RawFrameSlice {
    /// Index of this slice's first slot within the original storage.
    pub base: usize,
    /// One flag byte per slot: zero means free.
    pub flags: Vec<u8>,
    /// Rotating scan hint for the next allocation.
    pub next_idx: usize,
}

impl RawFrameSlice {
    /// Structural validity: the slot range fits the index space.
    pub open spec fn wf(&self) -> bool {
        self.base + self.flags@.len() <= usize::MAX
    }

    /// The backing capacity in slots.
    pub open spec fn capacity_spec(&self) -> nat {
        self.flags@.len()
    }

    /// Does the global slot index `slot` lie in this slice's range?
    pub open spec fn contains_slot(&self, slot: usize) -> bool {
        self.base <= slot < self.base + self.flags@.len()
    }

    /// Create a new, empty pool that has no backing storage.
    pub fn uninit() -> (r: Self)
        ensures
            r.wf(),
            r.capacity_spec() == 0,
            r.base == 0,
            r.next_idx == 0,
    {
        RawFrameSlice { base: 0, flags: Vec::new(), next_idx: 0 }
    }

    /// The backing capacity of this pool.
    pub fn capacity(&self) -> (r: usize)
        ensures
            r == self.capacity_spec(),
    {
        self.flags.len()
    }

    /// Count the number of allocatable (free) slots.
    pub fn count_allocatable(&self) -> (r: usize)
        ensures
            r == count_free(self.flags@),
    {
        let n = self.flags.len();
        let mut ct: usize = 0;
        let mut i: usize = 0;
        assert(self.flags@.take(0) =~= Seq::<u8>::empty());
        while i < n
            invariant
                i <= n,
                n == self.flags@.len(),
                ct == count_free(self.flags@.take(i as int)),
                ct <= i,
            decreases n - i,
        {
            proof {
                lemma_count_free_take_step(self.flags@, i as int);
            }
            if self.flags[i] == 0 {
                ct += 1;
            }
            i += 1;
        }
        assert(self.flags@.take(n as int) =~= self.flags@);
        ct
    }

    /// The local index where this pool's next allocation scan starts.
    pub open spec fn scan_start(&self) -> int {
        if self.next_idx >= self.flags@.len() {
            0
        } else {
            self.next_idx as int
        }
    }

    /// Attempt to allocate a [`FrameBox`] from this pool's backing
    /// storage.
    ///
    /// Scans slots from the rotating hint forward with wrap-around; the
    /// first free slot found is claimed by storing the maximum legal
    /// length in its flag byte, and the hint advances past it. Succeeds
    /// exactly when a free slot exists; the handle starts zero-filled
    /// with the maximum length, and its flag byte records that length.
    pub fn allocate_raw(&mut self) -> (r: Option<FrameBox>)
        requires
            old(self).wf(),
        ensures
            final(self).wf(),
            final(self).base == old(self).base,
            final(self).capacity_spec() == old(self).capacity_spec(),
            r is None <==> count_free(old(self).flags@) == 0,
            r is None ==> *final(self) == *old(self),
            r matches Some(fb) ==> {
                &&& fb.wf()
                &&& fb.len == MAX_FRAME_LEN
                &&& fb.data@ == Seq::new(MAX_FRAME_LEN as nat, |i: int| 0u8)
                &&& old(self).contains_slot(fb.slot)
                &&& next_free_slot(old(self).flags@, old(self).scan_start()) == Some(
                    fb.slot - old(self).base,
                )
                &&& old(self).flags@[fb.slot - old(self).base] == 0u8
                &&& final(self).flags@ == old(self).flags@.update(
                    fb.slot - old(self).base,
                    MAX_FRAME_LEN as u8,
                )
                &&& final(self).next_idx == fb.slot - old(self).base + 1
                &&& count_free(final(self).flags@) == count_free(old(self).flags@) - 1
            },
    {
        let ghost flags0 = self.flags@;
        let n = self.flags.len();
        if n == 0 {
            proof {
                lemma_count_free_zero(self.flags@);
            }
            return None;
        }
        let start = if self.next_idx >= n {
            0
        } else {
            self.next_idx
        };
        let mut i: usize = start;
        while i < n
            invariant
                *self == *old(self),
                self.flags@ == flags0,
                start == old(self).scan_start(),
                start <= i <= n,
                n == self.flags@.len(),
                start < n,
                self.wf(),
                first_free_in(self.flags@, start as int, i as int) is None,
            decreases n - i,
        {
            if self.flags[i] == 0 {
                proof {
                    lemma_first_free_found(self.flags@, start as int, i as int, n as int);
                }
                return Some(self.claim(i));
            }
            proof {
                lemma_first_free_extend(self.flags@, start as int, i as int);
            }
            i += 1;
        }
        let mut k: usize = 0;
        while k < start
            invariant
                *self == *old(self),
                self.flags@ == flags0,
                start == old(self).scan_start(),
                k <= start < n,
                n == self.flags@.len(),
                self.wf(),
                first_free_in(self.flags@, start as int, n as int) is None,
                first_free_in(self.flags@, 0, k as int) is None,
            decreases start - k,
        {
            if self.flags[k] == 0 {
                proof {
                    lemma_first_free_found(self.flags@, 0, k as int, start as int);
                }
                return Some(self.claim(k));
            }
            proof {
                lemma_first_free_extend(self.flags@, 0, k as int);
            }
            k += 1;
        }
        proof {
            lemma_none_free_anywhere(self.flags@, start as int);
            lemma_count_free_zero(self.flags@);
        }
        None
    }

    /// Claim the free slot at local index `idx`: mark it allocated and
    /// package it as a handle.
    fn claim(&mut self, idx: usize) -> (fb: FrameBox)
        requires
            old(self).wf(),
            idx < old(self).flags@.len(),
            old(self).flags@[idx as int] == 0u8,
        ensures
            final(self).wf(),
            final(self).base == old(self).base,
            final(self).flags@ == old(self).flags@.update(idx as int, MAX_FRAME_LEN as u8),
            final(self).next_idx == idx + 1,
            fb.wf(),
            fb.len == MAX_FRAME_LEN,
            fb.data@ == Seq::new(MAX_FRAME_LEN as nat, |i: int| 0u8),
            fb.slot == old(self).base + idx,
            count_free(final(self).flags@) == count_free(old(self).flags@) - 1,
    {
        proof {
            lemma_count_free_update(self.flags@, idx as int, MAX_FRAME_LEN as u8);
        }
        self.flags.set(idx, MAX_FRAME_LEN as u8);
        self.next_idx = idx + 1;
        let mut data: Vec<u8> = Vec::new();
        let mut i: usize = 0;
        while i < MAX_FRAME_LEN
            invariant
                i <= MAX_FRAME_LEN,
                data@ =~= Seq::new(i as nat, |j: int| 0u8),
            decreases MAX_FRAME_LEN - i,
        {
            data.push(0);
            i += 1;
        }
        FrameBox { data, len: MAX_FRAME_LEN as u8, slot: self.base + idx }
    }

    /// Release an allocated handle back to this pool: the slot's flag
    /// byte returns to zero and the slot becomes allocatable again. A
    /// handle whose slot does not belong to this pool, or whose slot is
    /// not marked allocated, is handed back unchanged.
    pub fn release(&mut self, fb: FrameBox) -> (r: Result<(), FrameBox>)
        requires
            old(self).wf(),
        ensures
            final(self).wf(),
            final(self).base == old(self).base,
            final(self).next_idx == old(self).next_idx,
            (old(self).contains_slot(fb.slot) && old(self).flags@[fb.slot - old(self).base]
                != 0u8) ==> {
                &&& r is Ok
                &&& final(self).flags@ == old(self).flags@.update(fb.slot - old(self).base, 0u8)
                &&& count_free(final(self).flags@) == count_free(old(self).flags@) + 1
            },
            !(old(self).contains_slot(fb.slot) && old(self).flags@[fb.slot - old(self).base]
                != 0u8) ==> {
                &&& r == Err::<(), FrameBox>(fb)
                &&& *final(self) == *old(self)
            },
    {
        if fb.slot >= self.base && fb.slot - self.base < self.flags.len() {
            let idx = fb.slot - self.base;
            if self.flags[idx] != 0 {
                proof {
                    lemma_count_free_update(self.flags@, idx as int, 0u8);
                }
                self.flags.set(idx, 0);
                return Ok(());
            }
        }
        Err(fb)
    }

    /// Splits the tail starting at `at` from self. Self is left with the
    /// slots `[..at]`, the new pool owns the slots `[at..]`, and each half
    /// is an independent allocator over its own range. Splitting at zero
    /// or at (or beyond) the current capacity fails and leaves the pool
    /// unchanged.
    pub fn split(&mut self, at: usize) -> (r: Option<RawFrameSlice>)
        requires
            old(self).wf(),
        ensures
            final(self).wf(),
            r is None <==> (at == 0 || at >= old(self).capacity_spec()),
            r is None ==> *final(self) == *old(self),
            r matches Some(tail) ==> {
                &&& tail.wf()
                &&& final(self).base == old(self).base
                &&& final(self).flags@ == old(self).flags@.take(at as int)
                &&& final(self).next_idx == old(self).next_idx
                &&& tail.base == old(self).base + at
                &&& tail.flags@ == old(self).flags@.skip(at as int)
                &&& tail.next_idx == 0
                &&& final(self).capacity_spec() + tail.capacity_spec()
                    == old(self).capacity_spec()
            },
    {
        if at == 0 || at >= self.flags.len() {
            return None;
        }
        let tail_flags = self.flags.split_off(at);
        Some(RawFrameSlice { base: self.base + at, flags: tail_flags, next_idx: 0 })
    }
}

/// Two pools over disjoint slot ranges, as the two halves of a split are,
/// never hand out colliding allocations: a handle from each names a
/// different slot.
pub proof fn lemma_disjoint_pools_never_collide(
    left: RawFrameSlice,
    right: RawFrameSlice,
    a: FrameBox,
    b: FrameBox,
)
    requires
        left.base + left.flags@.len() <= right.base,
        left.contains_slot(a.slot),
        right.contains_slot(b.slot),
    ensures
        a.slot != b.slot,
{
}

/// Storage for a fixed number of frame slots.
///
/// Intended to back one [`RawFrameSlice`]: the storage may be turned into
/// a pool exactly once, and later attempts fail.
pub struct FrameStorage {
    /// Number of slots the storage holds.
    pub slots: usize,
    /// Whether the storage was already taken as a pool.
    pub taken: bool,
}

impl FrameStorage {
    /// Create a new frame storage buffer with `slots` slots.
    pub fn new(slots: usize) -> (r: Self)
        ensures
            r.slots == slots,
            !r.taken,
    {
        FrameStorage { slots, taken: false }
    }

    /// Attempt to take the storage as a [`RawFrameSlice`]. The first call
    /// returns the pool, with every slot free; all later calls fail.
    pub fn take(&mut self) -> (r: Option<RawFrameSlice>)
        ensures
            final(self).slots == old(self).slots,
            final(self).taken,
            old(self).taken ==> r is None,
            !old(self).taken ==> (r matches Some(sli) && {
                &&& sli.wf()
                &&& sli.base == 0
                &&& sli.next_idx == 0
                &&& sli.flags@ == Seq::new(old(self).slots as nat, |i: int| 0u8)
                &&& count_free(sli.flags@) == old(self).slots
            }),
    {
        if self.taken {
            return None;
        }
        self.taken = true;
        let n = self.slots;
        let mut flags: Vec<u8> = Vec::new();
        let mut i: usize = 0;
        while i < n
            invariant
                i <= n,
                flags@ =~= Seq::new(i as nat, |j: int| 0u8),
            decreases n - i,
        {
            flags.push(0);
            i += 1;
        }
        proof {
            lemma_all_zero_count(flags@);
        }
        Some(RawFrameSlice { base: 0, flags, next_idx: 0 })
    }
}

/// A pool whose flag bytes are all zero has every slot free.
proof fn lemma_all_zero_count(s: Seq<u8>)
    requires
        forall|i: int| 0 <= i < s.len() ==> s[i] == 0u8,
    ensures
        count_free(s) == s.len(),
    decreases s.len(),
{
    if s.len() > 0 {
        lemma_all_zero_count(s.drop_last());
    }
}

/// A valid packet received from the wire: guaranteed to start with a
/// valid command-address byte. It may carry no payload if it is an empty
/// message.
pub struct WireFrameBox {
    /// The backing frame; byte 0 is the header.
    pub fb: FrameBox,
}

impl WireFrameBox {
    /// Validity: the backing frame is valid and byte 0 decodes to a
    /// command-address value.
    pub open spec fn wf(&self) -> bool {
        &&& self.fb.wf()
        &&& CmdAddr::decode_spec(self.fb.data@[0]) is Ok
    }

    /// The payload: every visible byte after the header.
    pub open spec fn payload_spec(&self) -> Seq<u8> {
        self.fb.bytes().skip(1)
    }

    /// Wrap a frame already known to start with a valid header byte.
    pub fn new_unchecked(fb: FrameBox) -> (r: Self)
        requires
            fb.wf(),
            CmdAddr::decode_spec(fb.data@[0]) is Ok,
        ensures
            r.wf(),
            r.fb == fb,
    {
        WireFrameBox { fb }
    }

    /// The command-address header of this message.
    pub fn cmd_addr(&self) -> (r: CmdAddr)
        requires
            self.wf(),
        ensures
            CmdAddr::decode_spec(self.fb.data@[0]) == Ok::<CmdAddr, CmdAddrError>(r),
    {
        match CmdAddr::from_byte(self.fb.get(0)) {
            Ok(ca) => ca,
            Err(_) => CmdAddr::SelectAddr(0),  // excluded by validity
        }
    }

    /// Borrow the payload.
    pub fn payload(&self) -> (r: &[u8])
        requires
            self.wf(),
        ensures
            r@ == self.payload_spec(),
    {
        let r = vstd::slice::slice_subrange(self.fb.data.as_slice(), 1, self.fb.len as usize);
        assert(r@ =~= self.payload_spec());
        r
    }

    /// Write the payload byte at `i`.
    pub fn payload_mut(&mut self, i: usize, b: u8)
        requires
            old(self).wf(),
            i + 1 < old(self).fb.len,
        ensures
            final(self).wf(),
            final(self).payload_spec() == old(self).payload_spec().update(i as int, b),
            final(self).fb.len == old(self).fb.len,
            final(self).fb.slot == old(self).fb.slot,
            final(self).fb.data@[0] == old(self).fb.data@[0],
    {
        self.fb.set(i + 1, b);
        assert(final(self).payload_spec() =~= old(self).payload_spec().update(i as int, b));
    }

    /// Deconstruct into the backing frame.
    pub fn into_inner(self) -> (r: FrameBox)
        ensures
            r == self.fb,
    {
        self.fb
    }

    /// Is the payload empty?
    pub fn is_empty(&self) -> (r: bool)
        ensures
            r == (self.fb.len == 1),
    {
        self.fb.len() == 1
    }

    /// The payload length.
    pub fn len(&self) -> (r: usize)
        requires
            self.wf(),
        ensures
            r == self.fb.len - 1,
    {
        self.fb.len() - 1
    }

    /// Set the payload length, not counting the header byte.
    pub fn set_len(&mut self, len: usize)
        requires
            old(self).wf(),
            len < MAX_FRAME_LEN,
        ensures
            final(self).wf(),
            final(self).fb.len == len + 1,
            final(self).fb.data == old(self).fb.data,
            final(self).fb.slot == old(self).fb.slot,
    {
        self.fb.set_len(1 + len);
    }
}

/// A message to be sent over the wire. Unlike [`WireFrameBox`] it does
/// not yet have a valid command-address header: byte 0 is reserved and
/// assigned at sending time, and the user sees only the payload.
pub struct SendFrameBox {
    /// The backing frame; byte 0 is reserved for the header.
    pub fb: FrameBox,
}

impl From<FrameBox> for SendFrameBox {
    /// Wrap an allocated frame as an outgoing message.
    fn from(value: FrameBox) -> (r: SendFrameBox) {
        SendFrameBox { fb: value }
    }
}

impl vstd::std_specs::convert::FromSpecImpl<FrameBox> for SendFrameBox {
    open spec fn obeys_from_spec() -> bool {
        true
    }

    open spec fn from_spec(t: FrameBox) -> SendFrameBox {
        SendFrameBox { fb: t }
    }
}

impl SendFrameBox {
    /// Validity of the backing frame.
    pub open spec fn wf(&self) -> bool {
        self.fb.wf()
    }

    /// The payload: every visible byte after the reserved header byte.
    pub open spec fn payload_spec(&self) -> Seq<u8> {
        self.fb.bytes().skip(1)
    }

    /// Borrow the payload.
    pub fn payload(&self) -> (r: &[u8])
        requires
            self.wf(),
        ensures
            r@ == self.payload_spec(),
    {
        let r = vstd::slice::slice_subrange(self.fb.data.as_slice(), 1, self.fb.len as usize);
        assert(r@ =~= self.payload_spec());
        r
    }

    /// Write the payload byte at `i`.
    pub fn payload_mut(&mut self, i: usize, b: u8)
        requires
            old(self).wf(),
            i + 1 < old(self).fb.len,
        ensures
            final(self).wf(),
            final(self).payload_spec() == old(self).payload_spec().update(i as int, b),
            final(self).fb.len == old(self).fb.len,
            final(self).fb.slot == old(self).fb.slot,
    {
        self.fb.set(i + 1, b);
        assert(final(self).payload_spec() =~= old(self).payload_spec().update(i as int, b));
    }

    /// Deconstruct into the backing frame.
    pub fn into_inner(self) -> (r: FrameBox)
        ensures
            r == self.fb,
    {
        self.fb
    }

    /// Is the payload empty?
    pub fn is_empty(&self) -> (r: bool)
        ensures
            r == (self.fb.len == 1),
    {
        self.fb.len() == 1
    }

    /// The payload length.
    pub fn len(&self) -> (r: usize)
        requires
            self.wf(),
        ensures
            r == self.fb.len - 1,
    {
        self.fb.len() - 1
    }

    /// Set the payload length, not counting the reserved header byte.
    pub fn set_len(&mut self, len: usize)
        requires
            old(self).wf(),
            len < MAX_FRAME_LEN,
        ensures
            final(self).wf(),
            final(self).fb.len == len + 1,
            final(self).fb.data == old(self).fb.data,
            final(self).fb.slot == old(self).fb.slot,
    {
        self.fb.set_len(1 + len);
    }
}

} // verus!
