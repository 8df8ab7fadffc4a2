//! Target-side wire decisions
//!
//! On a Target device the wire loop must never sit on a lock while
//! receiving, so the loop itself — receive, decide, reply — lives with
//! the I/O driver. Every decision the loop takes, and every frame it
//! puts on the wire, is computed here from plain values: which received
//! frames carry an address offer or confirmation, whether to enter the
//! claim dance, what the claim and reply frames contain.

use vstd::prelude::*;

use crate::frame_pool::FrameBox;
use crate::{xor_bytes, xor_seq, CmdAddr};
use vstd::bytes::{spec_u64_to_le_bytes, u64_to_le_bytes};

verus! {

/// Connectivity of a Target, as signalled to application code.
#[derive(Debug, PartialEq, Eq, Structural, Clone, Copy)]
pub enum State {
    /// The target holds the given logical address.
    Connected(u8),
    /// The target holds no logical address.
    Disconnected,
}

/// Does the frame carry a discovery offer: an offer header plus at least
/// the 8 challenge bytes?
pub open spec fn is_offer_frame(f: Seq<u8>) -> bool {
    &&& f.len() >= 9
    &&& CmdAddr::decode_spec(f[0]) matches Ok(CmdAddr::DiscoveryOffer(_))
}

/// Does the frame confirm an address to the device with identifier
/// `mac`: a success header plus that identifier's little-endian bytes?
pub open spec fn is_success_frame(f: Seq<u8>, mac: u64) -> bool {
    &&& f.len() >= 9
    &&& CmdAddr::decode_spec(f[0]) matches Ok(CmdAddr::DiscoverySuccess(_))
    &&& f.subrange(1, 9) == spec_u64_to_le_bytes(mac)
}

/// What an unaddressed Target reads out of one received frame.
pub enum AddrFrame {
    /// A discovery offer of the given address, carrying the challenge.
    Offer {
        /// The offered logical address.
        addr: u8,
        /// The 8 challenge bytes that accompanied the offer.
        challenge: Vec<u8>,
    },
    /// A discovery success naming this very device: a previously claimed
    /// address can be re-adopted.
    Reclaim {
        /// The re-confirmed logical address.
        addr: u8,
    },
    /// Anything else; keep listening.
    Ignore,
}

/// Classify one frame received while waiting for an address. A discovery
/// offer yields the offered address and its challenge; a discovery
/// success is adopted only when the echoed identifier matches this
/// device's own. Everything else is ignored.
pub fn classify_addr_frame(frame: &Vec<u8>, mac: u64) -> (r: AddrFrame)
    ensures
        r matches AddrFrame::Offer { addr, challenge } ==> is_offer_frame(frame@)
            && CmdAddr::decode_spec(frame@[0]) == Ok::<CmdAddr, crate::CmdAddrError>(
            CmdAddr::DiscoveryOffer(addr),
        ) && challenge@ == frame@.subrange(1, 9),
        (r is Offer) <==> is_offer_frame(frame@),
        r matches AddrFrame::Reclaim { addr } ==> is_success_frame(frame@, mac)
            && CmdAddr::decode_spec(frame@[0]) == Ok::<CmdAddr, crate::CmdAddrError>(
            CmdAddr::DiscoverySuccess(addr),
        ),
        (r is Reclaim) <==> (is_success_frame(frame@, mac) && !is_offer_frame(frame@)),
{
    if frame.len() < 9 {
        return AddrFrame::Ignore;
    }
    let header = frame[0];
    match CmdAddr::from_byte(header) {
        Ok(CmdAddr::DiscoveryOffer(addr)) => {
            let mut challenge: Vec<u8> = Vec::new();
            let mut i: usize = 1;
            while i < 9
                invariant
                    1 <= i <= 9,
                    frame@.len() >= 9,
                    challenge@ =~= frame@.subrange(1, i as int),
                decreases 9 - i,
            {
                challenge.push(frame[i]);
                i += 1;
            }
            AddrFrame::Offer { addr, challenge }
        },
        Ok(CmdAddr::DiscoverySuccess(addr)) => {
            let mac_bytes = u64_to_le_bytes(mac);
            let mut i: usize = 0;
            while i < 8
                invariant
                    i <= 8,
                    frame@.len() >= 9,
                    CmdAddr::decode_spec(frame@[0]) == Ok::<CmdAddr, crate::CmdAddrError>(
                        CmdAddr::DiscoverySuccess(addr),
                    ),
                    mac_bytes@ == spec_u64_to_le_bytes(mac),
                    mac_bytes@.len() == 8,
                    forall|j: int| 0 <= j < i ==> frame@[j + 1] == mac_bytes@[j],
                decreases 8 - i,
            {
                if frame[i + 1] != mac_bytes[i] {
                    assert(frame@.subrange(1, 9)[i as int] != spec_u64_to_le_bytes(mac)[i as int]);
                    return AddrFrame::Ignore;
                }
                i += 1;
            }
            assert(frame@.subrange(1, 9) =~= spec_u64_to_le_bytes(mac));
            AddrFrame::Reclaim { addr }
        },
        _ => AddrFrame::Ignore,
    }
}

/// The claim coinflip: an unaddressed Target that heard an offer goes for
/// it only when the low three bits of a fresh uniform draw are zero — a
/// deliberate 1-in-8 acceptance that thins out claim collisions.
pub fn should_claim(draw: u32) -> (r: bool)
    ensures
        r == (draw & 7 == 0),
{
    draw & 0b0000_0111 == 0
}

/// Build the 9-byte discovery claim for `addr`: the claim header, then
/// this device's identifier XOR-folded with the offer's challenge.
pub fn build_claim(addr: u8, mac: u64, challenge: &Vec<u8>) -> (r: Vec<u8>)
    requires
        challenge@.len() == 8,
    ensures
        r@.len() == 9,
        r@[0] == CmdAddr::DiscoveryClaim(addr).encode_spec(),
        r@.subrange(1, 9) == xor_seq(spec_u64_to_le_bytes(mac), challenge@),
{
    let mac_bytes = u64_to_le_bytes(mac);
    let folded = xor_bytes(&mac_bytes, challenge);
    let mut r: Vec<u8> = Vec::new();
    r.push(CmdAddr::DiscoveryClaim(addr).to_byte());
    let mut i: usize = 0;
    while i < 8
        invariant
            i <= 8,
            folded@.len() == 8,
            folded@ == xor_seq(spec_u64_to_le_bytes(mac), challenge@),
            r@.len() == i + 1,
            r@[0] == CmdAddr::DiscoveryClaim(addr).encode_spec(),
            forall|j: int| 0 <= j < i ==> r@[j + 1] == folded@[j],
        decreases 8 - i,
    {
        r.push(folded[i]);
        i += 1;
    }
    assert(r@.subrange(1, 9) =~= folded@);
    r
}

/// Is this frame the discovery success that completes our claim of
/// `addr`: the success header for that address, echoing our identifier?
pub fn is_success_for(frame: &Vec<u8>, addr: u8, mac: u64) -> (r: bool)
    ensures
        r == (is_success_frame(frame@, mac) && CmdAddr::decode_spec(frame@[0]) == Ok::<
            CmdAddr,
            crate::CmdAddrError,
        >(CmdAddr::DiscoverySuccess(addr))),
{
    match classify_addr_frame(frame, mac) {
        AddrFrame::Reclaim { addr: got } => got == addr,
        AddrFrame::Offer { .. } => false,
        AddrFrame::Ignore => false,
    }
}

/// The empty reply from `addr`: a single reply header byte, used to
/// acknowledge a discovery success and as the fallback when nothing is
/// queued for the Controller.
pub fn build_ack(addr: u8) -> (r: Vec<u8>)
    ensures
        r@.len() == 1,
        r@[0] == CmdAddr::ReplyFromAddr(addr).encode_spec(),
{
    let mut r: Vec<u8> = Vec::new();
    r.push(CmdAddr::ReplyFromAddr(addr).to_byte());
    r
}

/// Is this frame a select addressed to us, with at least the header?
pub open spec fn is_select_frame(f: Seq<u8>, addr: u8) -> bool {
    &&& f.len() >= 1
    &&& CmdAddr::decode_spec(f[0]) == Ok::<CmdAddr, crate::CmdAddrError>(CmdAddr::SelectAddr(addr))
}

/// What an addressed Target reads out of one received frame.
#[derive(Debug, PartialEq, Eq, Structural, Clone, Copy)]
pub enum SelectOutcome {
    /// Not a select for our address; keep listening.
    NotForUs,
    /// A bare select: answer, nothing to pass to the application.
    AckOnly,
    /// A select carrying a payload: pass the frame on, then answer.
    Data,
}

/// Classify one frame received while holding `addr`: anything but a
/// select for that address is discarded; a bare 1-byte select only needs
/// an answer; a longer one also carries data for the application.
pub fn classify_select(frame: &Vec<u8>, addr: u8) -> (r: SelectOutcome)
    ensures
        r == if !is_select_frame(frame@, addr) {
            SelectOutcome::NotForUs
        } else if frame@.len() == 1 {
            SelectOutcome::AckOnly
        } else {
            SelectOutcome::Data
        },
{
    if frame.len() == 0 {
        return SelectOutcome::NotForUs;
    }
    match CmdAddr::from_byte(frame[0]) {
        Ok(CmdAddr::SelectAddr(got)) => {
            if got == addr {
                if frame.len() == 1 {
                    SelectOutcome::AckOnly
                } else {
                    SelectOutcome::Data
                }
            } else {
                SelectOutcome::NotForUs
            }
        },
        _ => SelectOutcome::NotForUs,
    }
}

/// The wire bytes of a Target's reply from `addr`: the reply header,
/// then the payload of the queued outbound frame, if one is given.
pub fn build_reply(addr: u8, out: &Option<FrameBox>) -> (r: Vec<u8>)
    requires
        out matches Some(fb) ==> fb.wf(),
    ensures
        r@.len() >= 1,
        r@[0] == CmdAddr::ReplyFromAddr(addr).encode_spec(),
        match out {
            Some(fb) => r@.skip(1) == fb.bytes().skip(1) && r@.len() == fb.len,
            None => r@.len() == 1,
        },
{
    let mut r: Vec<u8> = Vec::new();
    r.push(CmdAddr::ReplyFromAddr(addr).to_byte());
    match out {
        Some(fb) => {
            let n = fb.len();
            let mut i: usize = 1;
            while i < n
                invariant
                    1 <= i <= n,
                    n == fb.len,
                    fb.wf(),
                    r@.len() == i,
                    r@[0] == CmdAddr::ReplyFromAddr(addr).encode_spec(),
                    forall|j: int| 1 <= j < i ==> r@[j] == fb.bytes()[j],
                decreases n - i,
            {
                r.push(fb.get(i));
                i += 1;
            }
            assert(r@.skip(1) =~= fb.bytes().skip(1));
        },
        None => (),
    }
    r
}

} // verus!
