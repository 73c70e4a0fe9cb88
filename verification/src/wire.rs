//! On-air frame codec: packing packets into advertising frames.
//!
//! Legacy BLE advertising leaves **22 bytes** of manufacturer data on every
//! desktop platform. A packet is packed into that budget with a
//! variable-length header:
//!
//! ```text
//! byte 0       ver(2 bits) | has_dest(1 bit) | ttl(5 bits)
//! bytes 1..3   seq, u16 big-endian
//! bytes 3..7   src wire id, u32 big-endian
//! [bytes 7..11 dest wire id, u32 big-endian, present iff has_dest]
//! rest         payload
//! ```
//!
//! [`encode`] writes version 0 ([`WIRE_VERSION`]) for any frame that fits
//! [`MAX_FRAME_LEN`] and version 1 ([`WIRE_VERSION_EXT`]) for longer frames;
//! the two share this header layout. [`decode`] accepts either.

use crate::bytes;
use crate::bytes::{be16_bytes, be32_bytes, put, read_be16, read_be32, same_bytes, tail};
use crate::error::{WireError, WireErrorKind};
use crate::node_id::WireId;
use crate::packet;
use crate::packet::{PacketN, PacketView, MAX_CAPACITY};
use vstd::prelude::*;

verus! {

/// Wire protocol version of frames that fit the legacy advertising budget.
pub const WIRE_VERSION: u8 = 0;

/// Wire protocol version of longer frames, for extended advertising.
pub const WIRE_VERSION_EXT: u8 = 1;

/// Maximum encoded length of a legacy frame in bytes.
pub const MAX_FRAME_LEN: usize = 22;

/// Maximum encoded length of an extended frame in bytes: the telegram header
/// and 200 bytes of payload.
pub const MAX_EXT_FRAME_LEN: usize = HEADER_LEN_TELEGRAM + 200;

/// Header length of a hearsay (broadcast) frame: flags, seq and src.
pub const HEADER_LEN_HEARSAY: usize = 1 + 2 + 4;

/// Header length of a telegram (unicast) frame: flags, seq, src and dest.
pub const HEADER_LEN_TELEGRAM: usize = HEADER_LEN_HEARSAY + 4;

const VERSION_SHIFT: u8 = 6;

const HAS_DEST_BIT: u8 = 0b0010_0000;

const TTL_MASK: u8 = 0b0001_1111;

/// An encoded on-air frame, generic over its inline capacity `CAP`.
///
/// The unit that transports send and receive. Its view is the frame bytes.
#[derive(Copy, Clone, Eq, Hash, Debug)]
pub struct FrameN<const CAP: usize> {
    len: u8,
    buf: [u8; CAP],
}

/// A legacy frame: [`FrameN`] with `CAP` = [`MAX_FRAME_LEN`].
pub type Frame = FrameN<MAX_FRAME_LEN>;

/// An extended frame: [`FrameN`] with `CAP` = [`MAX_EXT_FRAME_LEN`].
pub type ExtFrame = FrameN<MAX_EXT_FRAME_LEN>;

impl<const CAP: usize> View for FrameN<CAP> {
    type V = Seq<u8>;

    closed spec fn view(&self) -> Seq<u8> {
        self.buf@.take(self.len as int)
    }
}

impl<const CAP: usize> PartialEq for FrameN<CAP> {
    fn eq(&self, other: &Self) -> (same: bool) {
        same_bytes(self.as_bytes(), other.as_bytes())
    }
}

impl<const CAP: usize> vstd::std_specs::cmp::PartialEqSpecImpl for FrameN<CAP> {
    open spec fn obeys_eq_spec() -> bool {
        true
    }

    open spec fn eq_spec(&self, other: &Self) -> bool {
        self@ == other@
    }
}

impl<const CAP: usize> FrameN<CAP> {
    /// The length is within the capacity, and the unused bytes are zero.
    #[verifier::type_invariant]
    spec fn is_well_formed(self) -> bool {
        &&& self.len <= CAP
        &&& forall|i: int| self.len <= i < CAP ==> self.buf@[i] == 0
    }

    /// The empty frame.
    pub(crate) fn empty() -> (frame: Self)
        ensures
            frame@ == Seq::<u8>::empty(),
    {
        let buf = [0u8;CAP];
        assert(buf@.take(0) =~= Seq::<u8>::empty());
        Self { len: 0, buf }
    }

    /// Copies raw bytes received from a transport into a frame.
    ///
    /// This performs only a length check; use [`decode`] to validate and
    /// parse the contents.
    ///
    /// # Errors
    /// Returns [`WireError`] if `bytes` exceeds the capacity `CAP`.
    pub fn copy_from(bytes: &[u8]) -> (copied: Result<Self, WireError>)
        requires
            CAP <= MAX_CAPACITY,
        ensures
            copied is Ok <==> bytes@.len() <= CAP,
            copied matches Ok(frame) ==> frame@ == bytes@,
            copied matches Err(error) ==> error@ == (WireErrorKind::Oversized { len: bytes.len() }),
    {
        if bytes.len() > CAP {
            return Err(WireError::oversized(bytes.len()));
        }
        let mut buf = [0u8;CAP];
        put(&mut buf, 0, bytes);
        assert(buf@.take(bytes@.len() as int) =~= bytes@);
        Ok(Self { len: bytes.len() as u8, buf })
    }

    /// Returns the encoded bytes.
    #[must_use]
    pub fn as_bytes(&self) -> (bytes: &[u8])
        ensures
            bytes@ == self@,
            bytes@.len() <= CAP,
    {
        proof {
            use_type_invariant(self);
        }
        let bytes = vstd::slice::slice_subrange(self.buf.as_slice(), 0, self.len as usize);
        assert(bytes@ =~= self@);
        bytes
    }

    /// Returns the encoded length in bytes.
    #[must_use]
    pub fn len(&self) -> (len: usize)
        ensures
            len == self@.len(),
            len <= CAP,
    {
        proof {
            use_type_invariant(self);
        }
        self.len as usize
    }

    /// Returns `true` if the frame contains no bytes.
    #[must_use]
    pub fn is_empty(&self) -> (empty: bool)
        ensures
            empty == (self@.len() == 0),
    {
        proof {
            use_type_invariant(self);
        }
        self.len == 0
    }
}

impl<const CAP: usize> AsRef<[u8]> for FrameN<CAP> {
    fn as_ref(&self) -> (bytes: &[u8])
        ensures
            bytes@ == self@,
    {
        self.as_bytes()
    }
}

/// Encoded length of a packet.
pub open spec fn frame_len(packet: PacketView) -> nat {
    packet::header_len(packet.dest is Some) + packet.payload.len()
}

/// The version that a packet is sent under: the extended one exactly where
/// the frame exceeds the legacy budget.
pub open spec fn version_of(packet: PacketView) -> u8 {
    if frame_len(packet) > MAX_FRAME_LEN {
        WIRE_VERSION_EXT
    } else {
        WIRE_VERSION
    }
}

/// The first byte of a frame: version in the top 2 bits, then the addressee
/// flag, then the TTL in the low 5 bits.
pub open spec fn flags(version: u8, has_dest: bool, ttl: u8) -> u8 {
    (version * 64 + (if has_dest {
        32int
    } else {
        0
    }) + ttl) as u8
}

/// The frame bytes of a packet.
pub open spec fn encoded(packet: PacketView) -> Seq<u8> {
    seq![flags(version_of(packet), packet.dest is Some, packet.ttl)] + bytes::be16(packet.seq)
        + bytes::be32(packet.src) + packet::dest_bytes(packet.dest) + packet.payload
}

/// What decoding `frame` at capacity `cap` gives.
pub open spec fn decoded(frame: Seq<u8>, cap: nat) -> Result<PacketView, WireErrorKind> {
    let version = frame[0] / 64;
    let has_dest = frame[0] / 32 % 2 == 1;
    let ttl = frame[0] % 32;
    let header = packet::header_len(has_dest);
    if frame.len() > cap {
        Err(WireErrorKind::Oversized { len: frame.len() as usize })
    } else if frame.len() < HEADER_LEN_HEARSAY {
        Err(WireErrorKind::Truncated { len: frame.len() as usize })
    } else if version != WIRE_VERSION && version != WIRE_VERSION_EXT {
        Err(WireErrorKind::UnsupportedVersion { version })
    } else if ttl == 0 {
        Err(WireErrorKind::ZeroTtl)
    } else if frame.len() < header {
        Err(WireErrorKind::Truncated { len: frame.len() as usize })
    } else {
        Ok(
            PacketView {
                ttl,
                seq: bytes::be16_at(frame, 1),
                src: bytes::be32_at(frame, 3),
                dest: if has_dest {
                    Some(bytes::be32_at(frame, 7))
                } else {
                    None
                },
                payload: frame.skip(header as int),
            },
        )
    }
}

/// The views of what [`decode`] returned.
pub open spec fn outcome<const CAP: usize>(got: Result<PacketN<CAP>, WireError>) -> Result<
    PacketView,
    WireErrorKind,
> {
    match got {
        Ok(packet) => Ok(packet@),
        Err(error) => Err(error@),
    }
}

proof fn lemma_flags_joined(version: u8, has_dest: bool, ttl: u8)
    requires
        version <= 1,
        ttl <= 31,
    ensures
        has_dest ==> (version << VERSION_SHIFT) | HAS_DEST_BIT | (ttl & TTL_MASK) == flags(
            version,
            has_dest,
            ttl,
        ),
        !has_dest ==> (version << VERSION_SHIFT) | 0u8 | (ttl & TTL_MASK) == flags(
            version,
            has_dest,
            ttl,
        ),
{
    assert((version << 6u8) | 32u8 | (ttl & 31u8) == version * 64 + 32 + ttl) by (bit_vector)
        requires
            version <= 1,
            ttl <= 31,
    ;
    assert((version << 6u8) | 0u8 | (ttl & 31u8) == version * 64 + ttl) by (bit_vector)
        requires
            version <= 1,
            ttl <= 31,
    ;
}

proof fn lemma_flags_split(flags: u8)
    ensures
        flags >> VERSION_SHIFT == flags / 64,
        (flags & HAS_DEST_BIT != 0) == (flags / 32 % 2 == 1),
        flags & TTL_MASK == flags % 32,
{
    assert(flags >> 6u8 == flags / 64) by (bit_vector);
    assert((flags & 32u8 != 0) == (flags / 32 % 2 == 1)) by (bit_vector);
    assert(flags & 31u8 == flags % 32) by (bit_vector);
}

/// Encodes a packet into its on-air frame.
///
/// Infallible: every packet keeps a TTL in `1..=31` and a payload within its
/// shape's limit, so it always fits its frame.
#[must_use]
pub fn encode<const CAP: usize>(packet: &PacketN<CAP>) -> (frame: FrameN<CAP>)
    ensures
        frame@ == encoded(packet@),
        packet::is_valid(packet@, CAP as nat),
{
    let payload = packet.payload();
    let header_len: usize = if packet.is_telegram() {
        HEADER_LEN_TELEGRAM
    } else {
        HEADER_LEN_HEARSAY
    };
    let version: u8 = if header_len + payload.len() > MAX_FRAME_LEN {
        WIRE_VERSION_EXT
    } else {
        WIRE_VERSION
    };
    let has_dest: u8 = if packet.is_telegram() {
        HAS_DEST_BIT
    } else {
        0
    };
    proof {
        lemma_flags_joined(version, packet@.dest is Some, packet@.ttl);
    }
    let first: [u8; 1] = [(version << VERSION_SHIFT) | has_dest | (packet.ttl() & TTL_MASK)];
    assert(first@ =~= seq![flags(version_of(packet@), packet@.dest is Some, packet@.ttl)]);

    let mut buf = [0u8;CAP];
    let mut n: usize = 0;
    put(&mut buf, n, first.as_slice());
    n += 1;
    put(&mut buf, n, be16_bytes(packet.seq()).as_slice());
    n += 2;
    put(&mut buf, n, be32_bytes(packet.src().get()).as_slice());
    n += 4;
    assert(buf@.take(n as int) =~= first@ + bytes::be16(packet@.seq) + bytes::be32(packet@.src));
    if let Some(dest) = packet.dest() {
        put(&mut buf, n, be32_bytes(dest.get()).as_slice());
        n += 4;
    }
    assert(buf@.take(n as int) =~= first@ + bytes::be16(packet@.seq) + bytes::be32(packet@.src)
        + packet::dest_bytes(packet@.dest));
    put(&mut buf, n, payload);
    n += payload.len();
    assert(buf@.take(n as int) =~= encoded(packet@));
    FrameN { len: n as u8, buf }
}

/// Decodes raw received bytes into a packet.
///
/// # Errors
/// Returns [`WireError`] if the input is longer than the capacity `CAP`,
/// shorter than its header requires, carries an unsupported version, or
/// arrives with the forbidden TTL of zero.
pub fn decode<const CAP: usize>(bytes: &[u8]) -> (got: Result<PacketN<CAP>, WireError>)
    requires
        HEADER_LEN_TELEGRAM <= CAP <= MAX_CAPACITY,
    ensures
        outcome(got) == decoded(bytes@, CAP as nat),
{
    if bytes.len() > CAP {
        return Err(WireError::oversized(bytes.len()));
    }
    if bytes.len() < HEADER_LEN_HEARSAY {
        return Err(WireError::truncated(bytes.len()));
    }
    let flags: u8 = bytes[0];
    proof {
        lemma_flags_split(flags);
    }
    let version: u8 = flags >> VERSION_SHIFT;
    if version != WIRE_VERSION && version != WIRE_VERSION_EXT {
        return Err(WireError::unsupported_version(version));
    }
    let has_dest = flags & HAS_DEST_BIT != 0;
    let ttl: u8 = flags & TTL_MASK;
    if ttl == 0 {
        return Err(WireError::zero_ttl());
    }
    let header_len: usize = if has_dest {
        HEADER_LEN_TELEGRAM
    } else {
        HEADER_LEN_HEARSAY
    };
    if bytes.len() < header_len {
        return Err(WireError::truncated(bytes.len()));
    }
    let seq: u16 = read_be16(bytes, 1);
    let src = WireId::new(read_be32(bytes, 3));
    let payload = tail(bytes, header_len);
    let packet = if has_dest {
        PacketN::telegram_with(src, WireId::new(read_be32(bytes, 7)), seq, payload, ttl)
    } else {
        PacketN::hearsay_with(src, seq, payload, ttl)
    };
    match packet {
        Ok(packet) => Ok(packet),
        Err(_) => {
            assert(packet::outcome(packet) is Ok);
            vstd::pervasive::unreached()
        },
    }
}

/// Law: decoding the frame of a valid packet gives the packet back.
pub proof fn decoding_undoes_encoding(packet: PacketView, cap: nat)
    requires
        packet::is_valid(packet, cap),
    ensures
        decoded(encoded(packet), cap) == Ok::<PacketView, WireErrorKind>(packet),
{
    let frame = encoded(packet);
    let version = version_of(packet);
    let has_dest = packet.dest is Some;
    assert(frame[0] == flags(version, has_dest, packet.ttl));
    assert(frame[0] / 64 == version);
    assert(frame[0] / 32 % 2 == (if has_dest {
        1int
    } else {
        0
    }));
    assert(frame[0] % 32 == packet.ttl);
    assert(frame.subrange(1, 3) =~= bytes::be16(packet.seq));
    bytes::lemma_be16_round_trip(frame, 1, packet.seq);
    assert(frame.subrange(3, 7) =~= bytes::be32(packet.src));
    bytes::lemma_be32_round_trip(frame, 3, packet.src);
    if has_dest {
        assert(frame.subrange(7, 11) =~= bytes::be32(packet.dest->0));
        bytes::lemma_be32_round_trip(frame, 7, packet.dest->0);
    }
    assert(frame.skip(packet::header_len(has_dest) as int) =~= packet.payload);
    assert(decoded(frame, cap)->Ok_0 =~= packet);
}

/// Law: two valid packets with the same frame are the same packet.
pub proof fn frames_tell_packets_apart(a: PacketView, b: PacketView, cap: nat)
    requires
        packet::is_valid(a, cap),
        packet::is_valid(b, cap),
        encoded(a) == encoded(b),
    ensures
        a == b,
{
    decoding_undoes_encoding(a, cap);
    decoding_undoes_encoding(b, cap);
}

/// Law: a decoded packet is valid, so it can be encoded again.
pub proof fn decoded_packets_are_valid(frame: Seq<u8>, cap: nat)
    requires
        cap <= MAX_CAPACITY,
    ensures
        decoded(frame, cap) matches Ok(packet) ==> packet::is_valid(packet, cap) && frame_len(
            packet,
        ) == frame.len(),
{
}

/// Law: encoding a decoded packet gives the received frame back, but for the
/// version bits, which are set by the frame's length.
pub proof fn encoding_undoes_decoding(frame: Seq<u8>, cap: nat)
    requires
        cap <= MAX_CAPACITY,
    ensures
        decoded(frame, cap) matches Ok(packet) ==> {
            &&& encoded(packet).skip(1) == frame.skip(1)
            &&& encoded(packet)[0] % 64 == frame[0] % 64
            &&& encoded(packet)[0] / 64 == version_of(packet)
            &&& frame[0] / 64 == version_of(packet) ==> encoded(packet) == frame
        },
{
    if decoded(frame, cap) is Ok {
        let packet = decoded(frame, cap)->Ok_0;
        let header = packet::header_len(packet.dest is Some) as int;
        let again = encoded(packet);
        bytes::lemma_be16_rewritten(frame, 1);
        bytes::lemma_be32_rewritten(frame, 3);
        if packet.dest is Some {
            bytes::lemma_be32_rewritten(frame, 7);
        }
        assert(frame =~= frame.take(1) + frame.subrange(1, 3) + frame.subrange(3, 7)
            + frame.subrange(7, header) + frame.skip(header));
        assert(again =~= seq![again[0]] + frame.subrange(1, 3) + frame.subrange(3, 7)
            + frame.subrange(7, header) + frame.skip(header));
        assert(again.skip(1) =~= frame.skip(1));
        assert(again[0] % 64 == frame[0] % 64);
        if frame[0] / 64 == version_of(packet) {
            assert(again[0] == frame[0]);
            assert(again =~= frame);
        }
    }
}

/// Law: no frame of a valid packet carries a TTL of zero or a reserved
/// version; it carries the packet's TTL, fits the capacity, and its version
/// says whether it exceeds the legacy budget.
pub proof fn every_frame_is_sound(packet: PacketView, cap: nat)
    requires
        packet::is_valid(packet, cap),
    ensures
        encoded(packet)[0] % 32 == packet.ttl,
        encoded(packet)[0] % 32 != 0,
        encoded(packet)[0] / 64 == WIRE_VERSION <==> encoded(packet).len() <= MAX_FRAME_LEN,
        encoded(packet)[0] / 64 == WIRE_VERSION_EXT <==> encoded(packet).len() > MAX_FRAME_LEN,
        encoded(packet).len() == frame_len(packet),
        frame_len(packet) <= cap,
{
    assert(encoded(packet)[0] == flags(version_of(packet), packet.dest is Some, packet.ttl));
}

/// Law: a frame means the same at every capacity that holds it, so a short
/// frame from an extended node is understood by a legacy node.
pub proof fn a_frame_means_the_same_at_every_capacity(frame: Seq<u8>, a: nat, b: nat)
    requires
        frame.len() <= a,
        frame.len() <= b,
    ensures
        decoded(frame, a) == decoded(frame, b),
{
}

/// Law: a legacy decoder rejects every extended frame as oversized rather
/// than misparsing it.
pub proof fn a_legacy_decoder_refuses_extended_frames(packet: PacketView, cap: nat)
    requires
        packet::is_valid(packet, cap),
        version_of(packet) == WIRE_VERSION_EXT,
    ensures
        decoded(encoded(packet), MAX_FRAME_LEN as nat) == Err::<PacketView, WireErrorKind>(
            WireErrorKind::Oversized { len: frame_len(packet) as usize },
        ),
{
    every_frame_is_sound(packet, cap);
}

/// Law: where each field stands in a frame. Byte 0 holds the version, whether
/// there is an addressee, and the TTL; the sequence number, the source and the
/// addressee follow, most significant byte first, and then the payload.
pub proof fn every_field_has_its_place(packet: PacketView, cap: nat)
    requires
        packet::is_valid(packet, cap),
    ensures
        ({
            let frame = encoded(packet);
            let header: int = if packet.dest is Some {
                11
            } else {
                7
            };
            &&& frame.len() == header + packet.payload.len()
            &&& frame[0] / 64 == (if frame.len() > 22 {
                1int
            } else {
                0
            })
            &&& frame[0] / 32 % 2 == (if packet.dest is Some {
                1int
            } else {
                0
            })
            &&& frame[0] % 32 == packet.ttl
            &&& frame[1] * 256 + frame[2] == packet.seq
            &&& frame[3] * 0x100_0000 + frame[4] * 0x1_0000 + frame[5] * 256 + frame[6]
                == packet.src
            &&& packet.dest matches Some(dest) ==> frame[7] * 0x100_0000 + frame[8] * 0x1_0000
                + frame[9] * 256 + frame[10] == dest
            &&& frame.skip(header) == packet.payload
        }),
{
    let frame = encoded(packet);
    every_frame_is_sound(packet, cap);
    assert(frame[0] == flags(version_of(packet), packet.dest is Some, packet.ttl));
    assert(frame.subrange(1, 3) =~= bytes::be16(packet.seq));
    assert(frame[1] == frame.subrange(1, 3)[0] && frame[2] == frame.subrange(1, 3)[1]);
    bytes::lemma_be16_round_trip(frame, 1, packet.seq);
    assert(frame.subrange(3, 7) =~= bytes::be32(packet.src));
    bytes::lemma_be32_round_trip(frame, 3, packet.src);
    if packet.dest is Some {
        assert(frame.subrange(7, 11) =~= bytes::be32(packet.dest->0));
        bytes::lemma_be32_round_trip(frame, 7, packet.dest->0);
        assert(frame.skip(11) =~= packet.payload);
    } else {
        assert(frame.skip(7) =~= packet.payload);
    }
}

/// Law: what becomes of received bytes, whoever made them. They are refused as
/// too long, too short, of an unknown version or without hops, in this order,
/// and all others decode.
pub proof fn bytes_are_refused_for_these_reasons(frame: Seq<u8>, cap: nat)
    requires
        frame.len() <= usize::MAX,
    ensures
        frame.len() > cap <==> (decoded(frame, cap) matches Err(kind) && kind
            == WireErrorKind::Oversized { len: frame.len() as usize }),
        ({
            let short = frame.len() < 7 || (frame[0] < 128 && frame[0] % 32 != 0 && frame[0] / 32 % 2
                == 1 && frame.len() < 11);
            frame.len() <= cap && short <==> (decoded(frame, cap) matches Err(kind) && kind
                == WireErrorKind::Truncated { len: frame.len() as usize })
        }),
        7 <= frame.len() <= cap && frame[0] >= 128 <==> (decoded(frame, cap) matches Err(kind)
            && kind == WireErrorKind::UnsupportedVersion { version: frame[0] / 64 }),
        7 <= frame.len() <= cap && frame[0] < 128 && frame[0] % 32 == 0 <==> (decoded(
            frame,
            cap,
        ) matches Err(kind) && kind == WireErrorKind::ZeroTtl),
{
}

/// Law: two frames are equal exactly if their bytes are.
pub proof fn frames_are_equal_by_their_bytes<const CAP: usize>(a: FrameN<CAP>, b: FrameN<CAP>)
    ensures
        vstd::std_specs::cmp::PartialEqSpec::eq_spec(&a, &b) <==> a@ == b@,
{
}

} // verus!
