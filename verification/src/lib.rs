//! Core of a half-duplex, polled, controller/target bus protocol stack.
//!
//! The bus rides on a byte-oriented serial link with explicit end-of-frame
//! signalling. One Controller coordinates exchanges with up to 31 Targets
//! over the shared medium. This crate holds the protocol layer: the
//! command-address codec, the frame pool that backs zero-copy message
//! queueing, the per-peer state machine, the Controller's polling round,
//! and the Target's wire-loop decisions. Serial transfers, timers and
//! random-number generation are collaborators supplied by the caller;
//! every function here is a pure step from plain values to plain values.

use vstd::prelude::*;

pub mod controller;
pub mod frame_pool;
pub mod peer;
pub mod target;
pub mod wirehelp;

verus! {

/// The maximum number of Targets supported by a Controller.
pub const MAX_TARGETS: usize = 31;

/// An error wrapping the underlying serial port's failures.
#[derive(Debug, PartialEq, Eq, Structural)]
pub enum Error<E> {
    /// Some error with the underlying hardware serial port.
    Serial(E),
}

impl<E> From<E> for Error<E> {
    /// Wrap a serial port's own error.
    fn from(value: E) -> (r: Self) {
        Error::Serial(value)
    }
}

impl<E> vstd::std_specs::convert::FromSpecImpl<E> for Error<E> {
    open spec fn obeys_from_spec() -> bool {
        true
    }

    open spec fn from_spec(v: E) -> Error<E> {
        Error::Serial(v)
    }
}

/// Command + Address byte.
///
/// A combined command and address byte: 3 command bits (most significant)
/// and 5 address bits (least significant), i.e. `0bCCC_AAAAA`. The address
/// bits are the logical address of the Target, which may be a source or a
/// destination depending on the message kind. Commands `0b000`, `0b011`
/// and `0b110` are reserved and rejected on receipt.
#[derive(Debug, PartialEq, Eq, Structural, Clone, Copy)]
pub enum CmdAddr {
    /// Select - `0b001`: the Controller is addressing a Target.
    SelectAddr(u8),
    /// Reply - `0b010`: the Target is responding to the Controller.
    ReplyFromAddr(u8),
    /// Discovery Offer - `0b100`: the Controller offers an unused logical
    /// address to Targets that have none.
    DiscoveryOffer(u8),
    /// Discovery Claim - `0b101`: a Target attempts to claim an offer.
    DiscoveryClaim(u8),
    /// Discovery Success - `0b111`: the Controller confirms a claim; the
    /// Target must answer with an empty Reply.
    DiscoverySuccess(u8),
}

/// Error from decoding a command-address byte.
#[derive(Debug, PartialEq, Eq, Structural, Clone, Copy)]
pub enum CmdAddrError {
    /// A reserved command bit pattern was found.
    Reserved,
}

impl CmdAddr {
    /// The 3-bit command field.
    pub open spec fn cmd_spec(self) -> u8 {
        match self {
            CmdAddr::SelectAddr(_) => 1,
            CmdAddr::ReplyFromAddr(_) => 2,
            CmdAddr::DiscoveryOffer(_) => 4,
            CmdAddr::DiscoveryClaim(_) => 5,
            CmdAddr::DiscoverySuccess(_) => 7,
        }
    }

    /// The logical address carried by the variant, as constructed.
    pub open spec fn addr_spec(self) -> u8 {
        match self {
            CmdAddr::SelectAddr(a) => a,
            CmdAddr::ReplyFromAddr(a) => a,
            CmdAddr::DiscoveryOffer(a) => a,
            CmdAddr::DiscoveryClaim(a) => a,
            CmdAddr::DiscoverySuccess(a) => a,
        }
    }

    /// A constructible value whose address fits the 5-bit field.
    pub open spec fn valid(self) -> bool {
        self.addr_spec() < 32
    }

    /// The wire encoding: command in the high 3 bits, the low 5 bits of
    /// the address in the rest.
    pub open spec fn encode_spec(self) -> u8 {
        (self.cmd_spec() << 5) | (self.addr_spec() & 0x1f)
    }

    /// Decoding of a wire byte: total on the 5 assigned commands, and
    /// `Reserved` on the other 3.
    pub open spec fn decode_spec(b: u8) -> Result<CmdAddr, CmdAddrError> {
        let cmd = b >> 5;
        let addr = b & 0x1f;
        if cmd == 1 {
            Ok(CmdAddr::SelectAddr(addr))
        } else if cmd == 2 {
            Ok(CmdAddr::ReplyFromAddr(addr))
        } else if cmd == 4 {
            Ok(CmdAddr::DiscoveryOffer(addr))
        } else if cmd == 5 {
            Ok(CmdAddr::DiscoveryClaim(addr))
        } else if cmd == 7 {
            Ok(CmdAddr::DiscoverySuccess(addr))
        } else {
            Err(CmdAddrError::Reserved)
        }
    }

    /// Encode into the single wire byte. Addresses above 31 are truncated
    /// to their low 5 bits.
    pub fn to_byte(self) -> (r: u8)
        ensures
            r == self.encode_spec(),
    {
        let (cmd, addr): (u8, u8) = match self {
            CmdAddr::SelectAddr(a) => (1, a),
            CmdAddr::ReplyFromAddr(a) => (2, a),
            CmdAddr::DiscoveryOffer(a) => (4, a),
            CmdAddr::DiscoveryClaim(a) => (5, a),
            CmdAddr::DiscoverySuccess(a) => (7, a),
        };
        (cmd << 5) | (addr & 0x1f)
    }

    /// Decode a wire byte; reserved command patterns are rejected.
    pub fn from_byte(b: u8) -> (r: Result<CmdAddr, CmdAddrError>)
        ensures
            r == Self::decode_spec(b),
    {
        let cmd = b >> 5;
        let addr = b & 0x1f;
        match cmd {
            1 => Ok(CmdAddr::SelectAddr(addr)),
            2 => Ok(CmdAddr::ReplyFromAddr(addr)),
            4 => Ok(CmdAddr::DiscoveryOffer(addr)),
            5 => Ok(CmdAddr::DiscoveryClaim(addr)),
            7 => Ok(CmdAddr::DiscoverySuccess(addr)),
            _ => Err(CmdAddrError::Reserved),
        }
    }
}

/// Pointwise XOR of two equal-length byte strings.
pub open spec fn xor_seq(a: Seq<u8>, b: Seq<u8>) -> Seq<u8> {
    Seq::new(a.len(), |i: int| a[i] ^ b[i])
}

/// Pointwise XOR of two equal-length byte vectors, as used to fold a
/// device identifier with a discovery challenge.
pub fn xor_bytes(a: &Vec<u8>, b: &Vec<u8>) -> (r: Vec<u8>)
    requires
        a@.len() == b@.len(),
    ensures
        r@ == xor_seq(a@, b@),
{
    let n = a.len();
    let mut r: Vec<u8> = Vec::new();
    let mut i: usize = 0;
    while i < n
        invariant
            i <= n,
            n == a@.len() == b@.len(),
            r@ =~= xor_seq(a@, b@).take(i as int),
        decreases n - i,
    {
        r.push(a[i] ^ b[i]);
        i += 1;
    }
    assert(r@ =~= xor_seq(a@, b@));
    r
}

/// XOR-folding with the same string twice is the identity: for any
/// challenge `c` and message `m` of equal length, `c XOR (c XOR m) == m`.
/// This is what lets the Controller recover a Target's identifier from a
/// discovery claim.
pub proof fn lemma_xor_recover(c: Seq<u8>, m: Seq<u8>)
    requires
        c.len() == m.len(),
    ensures
        xor_seq(c, xor_seq(c, m)) == m,
{
    assert forall|i: int| 0 <= i < m.len() implies xor_seq(c, xor_seq(c, m))[i] == m[i] by {
        let x = c[i];
        let y = m[i];
        assert(x ^ (x ^ y) == y) by (bit_vector);
    }
    assert(xor_seq(c, xor_seq(c, m)) =~= m);
}

/// The claim recovery, end to end: folding an identifier's little-endian
/// bytes with a challenge and folding the result with the same challenge
/// again yields bytes that decode back to the identifier.
pub proof fn lemma_claim_recovers_uid(c: Seq<u8>, mac: u64)
    requires
        c.len() == 8,
    ensures
        vstd::bytes::spec_u64_from_le_bytes(
            xor_seq(c, xor_seq(c, vstd::bytes::spec_u64_to_le_bytes(mac))),
        ) == mac,
{
    vstd::bytes::lemma_auto_spec_u64_to_from_le_bytes();
    lemma_xor_recover(c, vstd::bytes::spec_u64_to_le_bytes(mac));
}

/// The seed a device derives for its random-number generator: its 64-bit
/// unique identifier's little-endian bytes, repeated to fill the 32-byte
/// seed.
pub fn rng_seed_from_uid(uid: u64) -> (r: Vec<u8>)
    ensures
        r@.len() == 32,
        forall|i: int|
            0 <= i < 32 ==> r@[i] == vstd::bytes::spec_u64_to_le_bytes(uid)[i % 8],
{
    let uid_bytes = vstd::bytes::u64_to_le_bytes(uid);
    let mut r: Vec<u8> = Vec::new();
    let mut i: usize = 0;
    while i < 32
        invariant
            i <= 32,
            uid_bytes@ == vstd::bytes::spec_u64_to_le_bytes(uid),
            uid_bytes@.len() == 8,
            r@.len() == i,
            forall|j: int| 0 <= j < i ==> r@[j] == uid_bytes@[j % 8],
        decreases 32 - i,
    {
        r.push(uid_bytes[i % 8]);
        i += 1;
    }
    r
}

/// Decoding a freshly encoded byte recovers the command exactly and the
/// low five bits of the address, for every address.
pub proof fn lemma_encode_truncates(ca: CmdAddr)
    ensures
        CmdAddr::decode_spec(ca.encode_spec()) matches Ok(back) && back.cmd_spec()
            == ca.cmd_spec() && back.addr_spec() == ca.addr_spec() & 0x1f,
{
    let c = ca.cmd_spec();
    let a = ca.addr_spec();
    assert(c == 1 || c == 2 || c == 4 || c == 5 || c == 7);
    assert(c < 8 ==> ((c << 5) | (a & 0x1f)) >> 5 == c) by (bit_vector);
    assert(c < 8 ==> ((c << 5) | (a & 0x1f)) & 0x1f == a & 0x1f) by (bit_vector);
}

/// Round trip: decoding an encoded command-address byte is the identity on
/// every constructible value, that is on every value whose address fits the
/// 5-bit field.
pub proof fn lemma_encode_decode_identity(ca: CmdAddr)
    requires
        ca.valid(),
    ensures
        CmdAddr::decode_spec(ca.encode_spec()) == Ok::<CmdAddr, CmdAddrError>(ca),
{
    let a = ca.addr_spec();
    assert(a < 32 ==> a & 0x1f == a) by (bit_vector);
    lemma_encode_truncates(ca);
}

} // verus!
