//! Protocol packets: construction, TTL semantics, and payload limits.
//!
//! A [`Packet`] is the parsed form of a message. Two shapes exist, named
//! after how gossip travels:
//!
//! * **hearsay**, a broadcast to everyone in earshot ([`PacketN::hearsay`]).
//! * **telegram**, a unicast addressed to one node ([`PacketN::telegram`]).
//!
//! [`PacketN`] and [`PayloadN`] are generic over a `CAP` const that sizes the
//! inline payload buffer to match an on-air [`FrameN`](crate::FrameN) of the
//! same capacity, at most [`MAX_CAPACITY`]. The aliases [`Packet`] and
//! [`Payload`] fix `CAP` to [`MAX_FRAME_LEN`], the legacy 22-byte frame;
//! [`ExtPacket`] fixes it to [`MAX_EXT_FRAME_LEN`].
//!
//! # TTL semantics
//!
//! The TTL counts remaining hops and lives in 5 bits on the wire. A TTL of
//! zero must never be placed on the wire: [`PacketN::hop`] refuses to
//! decrement at a TTL of 1, so a packet received with TTL 1 can still be
//! delivered locally but will not be forwarded.

use crate::bytes;
use crate::bytes::{be16_bytes, be32_bytes, put, same_bytes};
use crate::error::{PacketError, PacketErrorKind};
use crate::node_id::WireId;
use crate::seen;
use crate::seen::{fnv64_update, FNV_OFFSET_BASIS};
use crate::wire::{HEADER_LEN_HEARSAY, HEADER_LEN_TELEGRAM, MAX_EXT_FRAME_LEN, MAX_FRAME_LEN};
use vstd::prelude::*;

verus! {

/// Default number of hops a new packet may travel.
pub const DEFAULT_TTL: u8 = 16;

/// Maximum TTL representable in the 5-bit wire field.
pub const MAX_TTL: u8 = 31;

/// Maximum payload bytes in a legacy hearsay packet: [`MAX_FRAME_LEN`] (22)
/// minus the 7-byte broadcast header.
pub const MAX_PAYLOAD_HEARSAY: usize = MAX_FRAME_LEN - HEADER_LEN_HEARSAY;

/// Maximum payload bytes in a legacy telegram packet: [`MAX_FRAME_LEN`] (22)
/// minus the 11-byte unicast header.
pub const MAX_PAYLOAD_TELEGRAM: usize = MAX_FRAME_LEN - HEADER_LEN_TELEGRAM;

/// Maximum payload bytes in an extended hearsay packet.
pub const MAX_EXT_PAYLOAD_HEARSAY: usize = MAX_EXT_FRAME_LEN - HEADER_LEN_HEARSAY;

/// Maximum payload bytes in an extended telegram packet.
pub const MAX_EXT_PAYLOAD_TELEGRAM: usize = MAX_EXT_FRAME_LEN - HEADER_LEN_TELEGRAM;

/// The largest supported frame capacity: lengths are kept in one byte.
pub const MAX_CAPACITY: usize = 255;

/// Inline, fixed-capacity message payload, generic over the frame capacity.
///
/// Its view is the payload bytes.
#[derive(Copy, Clone, Eq, Hash, Debug)]
pub struct PayloadN<const CAP: usize> {
    len: u8,
    buf: [u8; CAP],
}

/// A legacy payload: [`PayloadN`] with `CAP` = [`MAX_FRAME_LEN`].
pub type Payload = PayloadN<MAX_FRAME_LEN>;

impl<const CAP: usize> View for PayloadN<CAP> {
    type V = Seq<u8>;

    closed spec fn view(&self) -> Seq<u8> {
        self.buf@.take(self.len as int)
    }
}

impl<const CAP: usize> PartialEq for PayloadN<CAP> {
    fn eq(&self, other: &Self) -> (same: bool) {
        same_bytes(self.as_slice(), other.as_slice())
    }
}

impl<const CAP: usize> vstd::std_specs::cmp::PartialEqSpecImpl for PayloadN<CAP> {
    open spec fn obeys_eq_spec() -> bool {
        true
    }

    open spec fn eq_spec(&self, other: &Self) -> bool {
        self@ == other@
    }
}

impl<const CAP: usize> PayloadN<CAP> {
    /// The length is within the capacity, and the unused bytes are zero.
    #[verifier::type_invariant]
    spec fn is_well_formed(self) -> bool {
        &&& self.len <= CAP
        &&& forall|i: int| self.len <= i < CAP ==> self.buf@[i] == 0
    }

    /// Copies `bytes` if there are at most `max` of them.
    pub(crate) fn copy_from(bytes: &[u8], max: usize) -> (made: Result<Self, PacketError>)
        requires
            max <= CAP <= MAX_CAPACITY,
        ensures
            made is Ok <==> bytes@.len() <= max,
            made matches Ok(payload) ==> payload@ == bytes@,
            made matches Err(error) ==> error@ == (PacketErrorKind::PayloadTooLong {
                len: bytes.len(),
                max,
            }),
    {
        if bytes.len() > max {
            return Err(PacketError::payload_too_long(bytes.len(), max));
        }
        let mut buf = [0u8;CAP];
        put(&mut buf, 0, bytes);
        assert(buf@.take(bytes@.len() as int) =~= bytes@);
        Ok(Self { len: bytes.len() as u8, buf })
    }

    /// Returns the payload bytes.
    #[must_use]
    pub fn as_slice(&self) -> (bytes: &[u8])
        ensures
            bytes@ == self@,
    {
        proof {
            use_type_invariant(self);
        }
        let bytes = vstd::slice::slice_subrange(self.buf.as_slice(), 0, self.len as usize);
        assert(bytes@ =~= self@);
        bytes
    }

    /// Returns the payload length in bytes.
    #[must_use]
    pub fn len(&self) -> (len: usize)
        ensures
            len == self@.len(),
    {
        proof {
            use_type_invariant(self);
        }
        self.len as usize
    }

    /// Returns `true` if the payload is empty.
    #[must_use]
    pub fn is_empty(&self) -> (empty: bool)
        ensures
            empty == (self@.len() == 0),
    {
        proof {
            use_type_invariant(self);
        }
        self.len == 0
    }
}

impl<const CAP: usize> AsRef<[u8]> for PayloadN<CAP> {
    fn as_ref(&self) -> (bytes: &[u8])
        ensures
            bytes@ == self@,
    {
        self.as_slice()
    }
}

/// What a packet says.
#[verifier::ext_equal]
pub struct PacketView {
    /// Remaining hops.
    pub ttl: u8,
    /// Per-source sequence number.
    pub seq: u16,
    /// Raw wire id of the originating node.
    pub src: u32,
    /// Raw wire id of the addressee; `None` for hearsay.
    pub dest: Option<u32>,
    /// The message.
    pub payload: Seq<u8>,
}

/// Header length of a frame with or without an addressee.
pub open spec fn header_len(has_dest: bool) -> nat {
    if has_dest {
        HEADER_LEN_TELEGRAM as nat
    } else {
        HEADER_LEN_HEARSAY as nat
    }
}

/// What every packet of capacity `cap` keeps: a TTL that may be on the wire,
/// and a payload that leaves room for the header.
pub open spec fn is_valid(packet: PacketView, cap: nat) -> bool {
    &&& 1 <= packet.ttl <= MAX_TTL
    &&& header_len(packet.dest is Some) + packet.payload.len() <= cap <= MAX_CAPACITY
}

/// What the constructors make of the parts of a packet at capacity `cap`.
pub open spec fn built(packet: PacketView, cap: nat) -> Result<PacketView, PacketErrorKind> {
    let max = cap - header_len(packet.dest is Some);
    if packet.ttl == 0 || packet.ttl > MAX_TTL {
        Err(PacketErrorKind::TtlOutOfRange { ttl: packet.ttl })
    } else if packet.payload.len() > max {
        Err(
            PacketErrorKind::PayloadTooLong {
                len: packet.payload.len() as usize,
                max: max as usize,
            },
        )
    } else {
        Ok(packet)
    }
}

/// The views of what a constructor returned.
pub open spec fn outcome<const CAP: usize>(made: Result<PacketN<CAP>, PacketError>) -> Result<
    PacketView,
    PacketErrorKind,
> {
    match made {
        Ok(packet) => Ok(packet@),
        Err(error) => Err(error@),
    }
}

/// A parsed protocol message, generic over the frame capacity `CAP`.
///
/// Construct via [`PacketN::hearsay`] or [`PacketN::telegram`] (or their
/// `*_with` variants to control the TTL). Its view is a [`PacketView`].
#[derive(Copy, Clone, Eq, Hash, Debug)]
pub struct PacketN<const CAP: usize> {
    ttl: u8,
    seq: u16,
    src: WireId,
    dest: Option<WireId>,
    payload: PayloadN<CAP>,
}

/// A legacy packet: [`PacketN`] with `CAP` = [`MAX_FRAME_LEN`].
pub type Packet = PacketN<MAX_FRAME_LEN>;

/// An extended packet: [`PacketN`] with `CAP` = [`MAX_EXT_FRAME_LEN`].
pub type ExtPacket = PacketN<MAX_EXT_FRAME_LEN>;

impl<const CAP: usize> View for PacketN<CAP> {
    type V = PacketView;

    closed spec fn view(&self) -> PacketView {
        PacketView {
            ttl: self.ttl,
            seq: self.seq,
            src: self.src@,
            dest: match self.dest {
                Some(dest) => Some(dest@),
                None => None,
            },
            payload: self.payload@,
        }
    }
}

impl<const CAP: usize> PartialEq for PacketN<CAP> {
    fn eq(&self, other: &Self) -> (same: bool) {
        let same_dest = match (self.dest, other.dest) {
            (Some(a), Some(b)) => a == b,
            (None, None) => true,
            _ => false,
        };
        self.ttl == other.ttl && self.seq == other.seq && self.src == other.src && same_dest
            && self.payload == other.payload
    }
}

impl<const CAP: usize> vstd::std_specs::cmp::PartialEqSpecImpl for PacketN<CAP> {
    open spec fn obeys_eq_spec() -> bool {
        true
    }

    open spec fn eq_spec(&self, other: &Self) -> bool {
        self@ == other@
    }
}

impl<const CAP: usize> PacketN<CAP> {
    /// Every packet is valid at its capacity.
    #[verifier::type_invariant]
    spec fn is_well_formed(self) -> bool {
        is_valid(self@, CAP as nat)
    }

    /// Creates a broadcast packet with [`DEFAULT_TTL`].
    ///
    /// `seq` is a per-source sequence number used (together with the source
    /// and payload) for duplicate suppression; sources should increment it
    /// per message.
    ///
    /// # Errors
    /// Returns [`PacketError`] if `payload` exceeds the hearsay payload limit
    /// (`CAP - 7`; [`MAX_PAYLOAD_HEARSAY`] for a legacy [`Packet`]).
    pub fn hearsay(src: WireId, seq: u16, payload: &[u8]) -> (made: Result<Self, PacketError>)
        requires
            HEADER_LEN_HEARSAY <= CAP <= MAX_CAPACITY,
        ensures
            outcome(made) == built(
                (PacketView {
                    ttl: DEFAULT_TTL,
                    seq,
                    src: src@,
                    dest: None,
                    payload: payload@,
                }),
                CAP as nat,
            ),
    {
        Self::hearsay_with(src, seq, payload, DEFAULT_TTL)
    }

    /// Creates a broadcast packet with an explicit TTL.
    ///
    /// # Errors
    /// Returns [`PacketError`] if `ttl` is outside `1..=MAX_TTL`, or else if
    /// `payload` exceeds the hearsay payload limit.
    pub fn hearsay_with(src: WireId, seq: u16, payload: &[u8], ttl: u8) -> (made: Result<
        Self,
        PacketError,
    >)
        requires
            HEADER_LEN_HEARSAY <= CAP <= MAX_CAPACITY,
        ensures
            outcome(made) == built(
                (PacketView { ttl, seq, src: src@, dest: None, payload: payload@ }),
                CAP as nat,
            ),
    {
        match validate_ttl(ttl) {
            Err(error) => Err(error),
            Ok(()) => match PayloadN::copy_from(payload, CAP - HEADER_LEN_HEARSAY) {
                Err(error) => Err(error),
                Ok(payload) => Ok(Self { ttl, seq, src, dest: None, payload }),
            },
        }
    }

    /// Creates a unicast packet to `dest` with [`DEFAULT_TTL`].
    ///
    /// # Errors
    /// Returns [`PacketError`] if `payload` exceeds the telegram payload
    /// limit (`CAP - 11`; [`MAX_PAYLOAD_TELEGRAM`] for a legacy [`Packet`]).
    pub fn telegram(src: WireId, dest: WireId, seq: u16, payload: &[u8]) -> (made: Result<
        Self,
        PacketError,
    >)
        requires
            HEADER_LEN_TELEGRAM <= CAP <= MAX_CAPACITY,
        ensures
            outcome(made) == built(
                (PacketView {
                    ttl: DEFAULT_TTL,
                    seq,
                    src: src@,
                    dest: Some(dest@),
                    payload: payload@,
                }),
                CAP as nat,
            ),
    {
        Self::telegram_with(src, dest, seq, payload, DEFAULT_TTL)
    }

    /// Creates a unicast packet with an explicit TTL.
    ///
    /// # Errors
    /// Returns [`PacketError`] if `ttl` is outside `1..=MAX_TTL`, or else if
    /// `payload` exceeds the telegram payload limit.
    pub fn telegram_with(src: WireId, dest: WireId, seq: u16, payload: &[u8], ttl: u8) -> (made:
        Result<Self, PacketError>)
        requires
            HEADER_LEN_TELEGRAM <= CAP <= MAX_CAPACITY,
        ensures
            outcome(made) == built(
                (PacketView { ttl, seq, src: src@, dest: Some(dest@), payload: payload@ }),
                CAP as nat,
            ),
    {
        match validate_ttl(ttl) {
            Err(error) => Err(error),
            Ok(()) => match PayloadN::copy_from(payload, CAP - HEADER_LEN_TELEGRAM) {
                Err(error) => Err(error),
                Ok(payload) => Ok(Self { ttl, seq, src, dest: Some(dest), payload }),
            },
        }
    }

    /// Consumes one hop, returning whether the packet may be forwarded.
    ///
    /// Returns `false` without modifying the packet when its TTL is 1: it has
    /// reached its last receiver, and decrementing would put the forbidden
    /// TTL 0 on the wire. Otherwise decrements the TTL and returns `true`.
    #[must_use]
    pub fn hop(&mut self) -> (forward: bool)
        ensures
            forward == (old(self)@.ttl > 1),
            final(self)@ == after_hop(old(self)@),
            is_valid(final(self)@, CAP as nat),
    {
        proof {
            use_type_invariant(&*self);
        }
        if self.ttl <= 1 {
            false
        } else {
            self.ttl = self.ttl - 1;
            true
        }
    }

    /// Returns the remaining hop count.
    #[must_use]
    pub fn ttl(&self) -> (ttl: u8)
        ensures
            ttl == self@.ttl,
            1 <= ttl <= MAX_TTL,
    {
        proof {
            use_type_invariant(self);
        }
        self.ttl
    }

    /// Returns the per-source sequence number.
    #[must_use]
    pub fn seq(&self) -> (seq: u16)
        ensures
            seq == self@.seq,
    {
        self.seq
    }

    /// Returns the originating node's wire id.
    #[must_use]
    pub fn src(&self) -> (src: WireId)
        ensures
            src@ == self@.src,
    {
        self.src
    }

    /// Returns the destination wire id, or `None` for hearsay (broadcast).
    #[must_use]
    pub fn dest(&self) -> (dest: Option<WireId>)
        ensures
            dest is Some <==> self@.dest is Some,
            dest matches Some(id) ==> self@.dest == Some(id@),
    {
        self.dest
    }

    /// Returns `true` if this packet is addressed to a single node.
    #[must_use]
    pub fn is_telegram(&self) -> (yes: bool)
        ensures
            yes == (self@.dest is Some),
    {
        self.dest.is_some()
    }

    /// Returns the payload bytes.
    #[must_use]
    pub fn payload(&self) -> (bytes: &[u8])
        ensures
            bytes@ == self@.payload,
            is_valid(self@, CAP as nat),
    {
        proof {
            use_type_invariant(self);
        }
        self.payload.as_slice()
    }

    /// Computes the duplicate-suppression key for this packet.
    ///
    /// The key is the FNV-1a hash of the TTL-independent identity of the
    /// message: the same message arriving via different routes carries
    /// different TTLs but has the same key. The fields are folded into the
    /// hash one at a time, which yields the hash of their concatenation.
    #[must_use]
    pub fn dedup_key(&self) -> (key: u64)
        ensures
            key == key_of(self@),
    {
        let shape: [u8; 1] = [
            if self.dest.is_some() {
                1
            } else {
                0
            },
        ];
        let mut hash: u64 = FNV_OFFSET_BASIS;
        hash = fnv64_update(hash, shape.as_slice());
        hash = fnv64_update(hash, be32_bytes(self.src.get()).as_slice());
        hash = fnv64_update(hash, be16_bytes(self.seq).as_slice());
        if let Some(dest) = self.dest {
            hash = fnv64_update(hash, be32_bytes(dest.get()).as_slice());
        }
        proof {
            let basis = FNV_OFFSET_BASIS;
            let src = bytes::be32(self@.src);
            let seq = bytes::be16(self@.seq);
            let dest = dest_bytes(self@.dest);
            assert(shape@ =~= seq![shape_flag(self@)]);
            seen::fnv_streams(basis, shape@, src);
            seen::fnv_streams(basis, shape@ + src, seq);
            seen::fnv_streams(basis, shape@ + src + seq, dest);
            seen::fnv_streams(basis, shape@ + src + seq + dest, self@.payload);
            assert(shape@ + src + seq + Seq::<u8>::empty() =~= shape@ + src + seq);
        }
        fnv64_update(hash, self.payload.as_slice())
    }
}

fn validate_ttl(ttl: u8) -> (checked: Result<(), PacketError>)
    ensures
        checked is Ok <==> 1 <= ttl <= MAX_TTL,
        checked matches Err(error) ==> error@ == (PacketErrorKind::TtlOutOfRange { ttl }),
{
    if ttl == 0 || ttl > MAX_TTL {
        Err(PacketError::ttl_out_of_range(ttl))
    } else {
        Ok(())
    }
}

/// The packet after a hop: one hop fewer, unless it was on its last.
pub open spec fn after_hop(packet: PacketView) -> PacketView {
    if packet.ttl > 1 {
        PacketView { ttl: (packet.ttl - 1) as u8, ..packet }
    } else {
        packet
    }
}

/// One for a telegram, zero for hearsay.
pub open spec fn shape_flag(packet: PacketView) -> u8 {
    if packet.dest is Some {
        1
    } else {
        0
    }
}

/// The bytes of the addressee, if there is one.
pub open spec fn dest_bytes(dest: Option<u32>) -> Seq<u8> {
    match dest {
        Some(id) => bytes::be32(id),
        None => Seq::empty(),
    }
}

/// The bytes that identify a message, whatever its TTL.
pub open spec fn identity(packet: PacketView) -> Seq<u8> {
    seq![shape_flag(packet)] + bytes::be32(packet.src) + bytes::be16(packet.seq) + dest_bytes(
        packet.dest,
    ) + packet.payload
}

/// The duplicate-suppression key of a packet.
pub open spec fn key_of(packet: PacketView) -> u64 {
    seen::fnv(identity(packet))
}

/// Two packets that carry the same message, whatever their TTLs.
pub open spec fn same_message(a: PacketView, b: PacketView) -> bool {
    &&& a.seq == b.seq
    &&& a.src == b.src
    &&& a.dest == b.dest
    &&& a.payload == b.payload
}

/// Law: the identity that the key hashes ignores the TTL and nothing else.
pub proof fn the_identity_ignores_only_the_ttl(a: PacketView, b: PacketView)
    ensures
        identity(a) == identity(b) <==> same_message(a, b),
{
    if identity(a) == identity(b) {
        let (x, y) = (identity(a), identity(b));
        assert(x[0] == shape_flag(a) && y[0] == shape_flag(b));
        assert(x.subrange(1, 5) =~= bytes::be32(a.src));
        assert(y.subrange(1, 5) =~= bytes::be32(b.src));
        bytes::lemma_be32_round_trip(x, 1, a.src);
        bytes::lemma_be32_round_trip(y, 1, b.src);
        assert(x.subrange(5, 7) =~= bytes::be16(a.seq));
        assert(y.subrange(5, 7) =~= bytes::be16(b.seq));
        bytes::lemma_be16_round_trip(x, 5, a.seq);
        bytes::lemma_be16_round_trip(y, 5, b.seq);
        if a.dest is Some {
            assert(x.subrange(7, 11) =~= bytes::be32(a.dest->0));
            assert(y.subrange(7, 11) =~= bytes::be32(b.dest->0));
            bytes::lemma_be32_round_trip(x, 7, a.dest->0);
            bytes::lemma_be32_round_trip(y, 7, b.dest->0);
            assert(x.skip(11) =~= a.payload);
            assert(y.skip(11) =~= b.payload);
        } else {
            assert(x.skip(7) =~= a.payload);
            assert(y.skip(7) =~= b.payload);
        }
    }
}

/// Law: packets of the same message have the same key, whatever their TTLs.
pub proof fn the_key_ignores_the_ttl(a: PacketView, b: PacketView)
    requires
        same_message(a, b),
    ensures
        key_of(a) == key_of(b),
{
    the_identity_ignores_only_the_ttl(a, b);
}

/// Law: a hop keeps the message and its key, keeps a valid packet valid, and
/// never brings the TTL to zero.
pub proof fn a_hop_keeps_the_message(packet: PacketView, cap: nat)
    requires
        is_valid(packet, cap),
    ensures
        same_message(packet, after_hop(packet)),
        key_of(after_hop(packet)) == key_of(packet),
        is_valid(after_hop(packet), cap),
        after_hop(packet).ttl >= 1,
{
    the_key_ignores_the_ttl(packet, after_hop(packet));
}

/// The packet after `hops` hops.
pub open spec fn after_hops(packet: PacketView, hops: nat) -> PacketView
    decreases hops,
{
    if hops == 0 {
        packet
    } else {
        after_hops(after_hop(packet), (hops - 1) as nat)
    }
}

/// Law: a packet travels as many hops as its TTL allows and rests at TTL 1.
pub proof fn the_ttl_bounds_the_journey(packet: PacketView, hops: nat)
    requires
        packet.ttl >= 1,
    ensures
        after_hops(packet, hops).ttl == (if hops < packet.ttl {
            packet.ttl - hops
        } else {
            1
        }),
        same_message(packet, after_hops(packet, hops)),
    decreases hops,
{
    if hops > 0 {
        the_ttl_bounds_the_journey(after_hop(packet), (hops - 1) as nat);
    }
}

/// Law: a packet is made of its parts exactly if the TTL is 1 to 31 and the
/// header and the payload fit the capacity. It then holds these parts. A bad
/// TTL is reported before a payload that is too long, and both with what was
/// given and what is allowed.
pub proof fn a_packet_holds_its_parts(packet: PacketView, cap: nat)
    requires
        packet.payload.len() <= usize::MAX,
        11 <= cap <= MAX_CAPACITY,
    ensures
        ({
            let header: nat = if packet.dest is Some {
                11
            } else {
                7
            };
            let fair = 1 <= packet.ttl <= 31;
            let fits = header + packet.payload.len() <= cap;
            &&& built(packet, cap) is Ok <==> fair && fits
            &&& built(packet, cap) matches Ok(made) ==> made == packet && is_valid(made, cap)
            &&& !fair ==> built(packet, cap) == Err::<PacketView, PacketErrorKind>(
                PacketErrorKind::TtlOutOfRange { ttl: packet.ttl },
            )
            &&& fair && !fits ==> built(packet, cap) == Err::<PacketView, PacketErrorKind>(
                PacketErrorKind::PayloadTooLong {
                    len: packet.payload.len() as usize,
                    max: (cap - header) as usize,
                },
            )
        }),
{
}

/// Law: the key of a message is the FNV-1a hash of whether it is a telegram,
/// the source, the sequence number, the addressee and the payload.
pub proof fn the_key_hashes_the_message(packet: PacketView, bytes: Seq<u8>)
    requires
        ({
            let at: int = if packet.dest is Some {
                11
            } else {
                7
            };
            &&& bytes.len() == at + packet.payload.len()
            &&& bytes[0] == (if packet.dest is Some {
                1u8
            } else {
                0
            })
            &&& bytes[1] * 0x100_0000 + bytes[2] * 0x1_0000 + bytes[3] * 256 + bytes[4]
                == packet.src
            &&& bytes[5] * 256 + bytes[6] == packet.seq
            &&& packet.dest matches Some(dest) ==> bytes[7] * 0x100_0000 + bytes[8] * 0x1_0000
                + bytes[9] * 256 + bytes[10] == dest
            &&& bytes.skip(at) == packet.payload
        }),
    ensures
        key_of(packet) == seen::fnv(bytes),
{
    let at: int = if packet.dest is Some {
        11
    } else {
        7
    };
    bytes::lemma_be32_rewritten(bytes, 1);
    bytes::lemma_be16_rewritten(bytes, 5);
    if packet.dest is Some {
        bytes::lemma_be32_rewritten(bytes, 7);
    }
    assert(bytes =~= bytes.take(1) + bytes.subrange(1, 5) + bytes.subrange(5, 7) + bytes.subrange(
        7,
        at,
    ) + bytes.skip(at));
    assert(bytes.take(1) =~= seq![shape_flag(packet)]);
    assert(bytes.subrange(7, at) =~= dest_bytes(packet.dest));
    assert(identity(packet) =~= bytes);
}

/// Law: a hop takes one off the TTL and nothing else, until one is left.
pub proof fn a_hop_takes_one_off(packet: PacketView)
    requires
        packet.ttl >= 1,
    ensures
        packet.ttl > 1 ==> after_hop(packet).ttl + 1 == packet.ttl,
        packet.ttl == 1 ==> after_hop(packet) == packet,
        after_hop(packet) == (PacketView { ttl: after_hop(packet).ttl, ..packet }),
{
}

/// Law: two payloads are equal exactly if their bytes are.
pub proof fn payloads_are_equal_by_their_bytes<const CAP: usize>(a: PayloadN<CAP>, b: PayloadN<CAP>)
    ensures
        vstd::std_specs::cmp::PartialEqSpec::eq_spec(&a, &b) <==> a@ == b@,
{
}

/// Law: two packets are equal exactly if all that they say is equal.
pub proof fn packets_are_equal_by_what_they_say<const CAP: usize>(a: PacketN<CAP>, b: PacketN<CAP>)
    ensures
        vstd::std_specs::cmp::PartialEqSpec::eq_spec(&a, &b) <==> a@ == b@,
{
}

} // verus!
