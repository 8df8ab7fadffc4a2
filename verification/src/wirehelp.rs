//! Wire data format helpers
//!
//! Frames may carry a postcard-rpc message in their payload: an 8-byte
//! message key, a sequence number as a postcard varint, then the message
//! body. Decoding the header is delegated to the postcard-rpc crate
//! behind one trusted wrapper whose contract states the byte format;
//! framing an outgoing message — placing already-serialized header and
//! body bytes behind the reserved command-address byte — is verified
//! here. Serializing the application's message types is the caller's
//! business.

use vstd::prelude::*;

use crate::frame_pool::FrameBox;

verus! {

/// Where the postcard varint that starts at `off` ends (the index one
/// past its last byte), reading at most the `5 - i` bytes a `u32` varint
/// may still occupy: each byte contributes 7 low bits, a set high bit
/// continues, and the fifth byte must not exceed 15. `None` when the
/// bytes run out, the varint overruns five bytes, or the fifth byte is
/// out of range.
pub open spec fn varint32_end(s: Seq<u8>, off: int, i: int) -> Option<int>
    decreases 5 - i,
{
    if i >= 5 || off >= s.len() {
        None
    } else if s[off] & 0x80 == 0 {
        if i == 4 && s[off] > 15 {
            None
        } else {
            Some(off + 1)
        }
    } else {
        varint32_end(s, off + 1, i + 1)
    }
}

/// The value of the postcard varint that starts at `off`, with `i` 7-bit
/// groups already consumed: the low 7 bits of each byte, least
/// significant group first.
pub open spec fn varint32_value(s: Seq<u8>, off: int, i: int) -> u32
    decreases 5 - i,
{
    if i >= 5 || off >= s.len() {
        0
    } else if s[off] & 0x80 == 0 {
        ((s[off] & 0x7f) as u32) << (7 * i as u32)
    } else {
        (((s[off] & 0x7f) as u32) << (7 * i as u32)) | varint32_value(s, off + 1, i + 1)
    }
}

/// Does a payload parse as a postcard-rpc headered message: an 8-byte
/// key, then a valid sequence-number varint?
pub open spec fn has_wire_header(s: Seq<u8>) -> bool {
    s.len() >= 8 && varint32_end(s, 8, 0) is Some
}

/// Relies on postcard_rpc::headered::extract_header_from_bytes, which
/// reads a postcard-encoded wire header off the front of the bytes: the
/// 8 raw bytes of the message key, then the sequence number as a u32
/// varint; the rest is the message body. It fails exactly when the bytes
/// end before the header does or the varint is malformed.
#[verifier::external_body]
fn extract_header(bytes: &[u8]) -> (r: Option<(Vec<u8>, u32, Vec<u8>)>)
    ensures
        r is Some <==> has_wire_header(bytes@),
        r matches Some((key, seq_no, body)) ==> {
            &&& key@ == bytes@.subrange(0, 8)
            &&& seq_no == varint32_value(bytes@, 8, 0)
            &&& varint32_end(bytes@, 8, 0) matches Some(end) && body@ == bytes@.skip(end)
        },
{
    match postcard_rpc::headered::extract_header_from_bytes(bytes) {
        Ok((wh, body)) => Some((wh.key.to_bytes().to_vec(), wh.seq_no, body.to_vec())),
        Err(_) => None,
    }
}

/// A decoded view of a frame that carries a postcard-rpc message.
pub struct WhBody {
    /// The 8-byte message key.
    pub key: Vec<u8>,
    /// The sequence number.
    pub seq_no: u32,
    /// The message body.
    pub body: Vec<u8>,
}

impl WhBody {
    /// Attempt to decode a postcard-rpc message from a frame: the
    /// command-address byte is skipped, then the wire header is read off
    /// the payload. Succeeds exactly when the payload carries one.
    pub fn try_from(fb: &FrameBox) -> (r: Option<WhBody>)
        requires
            fb.wf(),
        ensures
            r is Some <==> has_wire_header(fb.bytes().skip(1)),
            r matches Some(wh) ==> {
                let payload = fb.bytes().skip(1);
                &&& wh.key@ == payload.subrange(0, 8)
                &&& wh.seq_no == varint32_value(payload, 8, 0)
                &&& varint32_end(payload, 8, 0) matches Some(end) && wh.body@ == payload.skip(end)
            },
    {
        let payload = vstd::slice::slice_subrange(fb.data.as_slice(), 1, fb.len as usize);
        assert(payload@ =~= fb.bytes().skip(1));
        match extract_header(payload) {
            Some((key, seq_no, body)) => Some(WhBody { key, seq_no, body }),
            None => None,
        }
    }
}

/// Frame an outgoing message: keep byte 0 for the command-address byte —
/// which is assigned at send time — and lay the already-serialized
/// header and body bytes behind it. Fails, leaving the frame unchanged,
/// when they do not fit the frame's current visible length.
pub fn fill_frame(buf: &mut FrameBox, hdr: &Vec<u8>, body: &Vec<u8>) -> (r: bool)
    requires
        old(buf).wf(),
    ensures
        final(buf).wf(),
        final(buf).slot == old(buf).slot,
        r <==> 1 + hdr@.len() + body@.len() <= old(buf).len,
        !r ==> *final(buf) == *old(buf),
        r ==> {
            &&& final(buf).len == 1 + hdr@.len() + body@.len()
            &&& final(buf).bytes() == seq![old(buf).bytes()[0]] + hdr@ + body@
        },
{
    let h = hdr.len();
    let b = body.len();
    let limit = buf.len();
    if h >= limit || b > limit - 1 - h {
        return false;
    }
    let mut k: usize = 0;
    while k < h
        invariant
            k <= h,
            h == hdr@.len(),
            1 + h + b <= limit,
            limit == old(buf).len,
            buf.wf(),
            buf.len == old(buf).len,
            buf.slot == old(buf).slot,
            buf.data@[0] == old(buf).data@[0],
            forall|j: int| 0 <= j < k ==> buf.data@[1 + j] == hdr@[j],
        decreases h - k,
    {
        buf.set(1 + k, hdr[k]);
        k += 1;
    }
    let mut k2: usize = 0;
    while k2 < b
        invariant
            k2 <= b,
            h == hdr@.len(),
            b == body@.len(),
            1 + h + b <= limit,
            limit == old(buf).len,
            buf.wf(),
            buf.len == old(buf).len,
            buf.slot == old(buf).slot,
            buf.data@[0] == old(buf).data@[0],
            forall|j: int| 0 <= j < h ==> buf.data@[1 + j] == hdr@[j],
            forall|j: int| 0 <= j < k2 ==> buf.data@[1 + h + j] == body@[j],
        decreases b - k2,
    {
        buf.set(1 + h + k2, body[k2]);
        k2 += 1;
    }
    buf.set_len(1 + h + b);
    assert(buf.bytes() =~= seq![old(buf).bytes()[0]] + hdr@ + body@);
    true
}

} // verus!
