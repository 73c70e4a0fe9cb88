//! Error types for packet construction and wire decoding.
//!
//! Each error is a situation-specific struct around a private kind, with
//! `is_*()` predicates in place of the raw enum. The kind is the error's view.
//! Errors capture a backtrace when they are made, which ends their message
//! when capture is enabled via `RUST_BACKTRACE`.

use crate::packet::MAX_TTL;
use crate::text;
use crate::text::push_decimal;
use crate::trace;
use crate::trace::Trace;
use crate::wire::MAX_FRAME_LEN;
use vstd::prelude::*;

verus! {

/// Why a packet could not be constructed.
#[derive(Copy, Clone, Debug)]
pub enum PacketErrorKind {
    /// Payload exceeds the limit for the requested packet shape.
    PayloadTooLong { len: usize, max: usize },
    /// TTL outside the valid on-wire range `1..=MAX_TTL`.
    TtlOutOfRange { ttl: u8 },
}

/// Failure to construct a [`Packet`](crate::Packet) from caller input.
#[derive(Debug)]
pub struct PacketError {
    kind: PacketErrorKind,
    trace: Trace,
}

impl View for PacketError {
    type V = PacketErrorKind;

    closed spec fn view(&self) -> PacketErrorKind {
        self.kind
    }
}

/// The sentence that explains a packet error.
pub open spec fn packet_error_text(kind: PacketErrorKind) -> Seq<char> {
    match kind {
        PacketErrorKind::PayloadTooLong { len, max } => "payload is "@ + text::decimal(len as nat)
            + " bytes but at most "@ + text::decimal(max as nat) + " bytes fit this packet shape"@,
        PacketErrorKind::TtlOutOfRange { ttl } => "ttl "@ + text::decimal(ttl as nat)
            + " is outside the valid on-wire range 1..="@ + text::decimal(MAX_TTL as nat),
    }
}

impl PacketError {
    /// Whether the error holds a backtrace.
    pub closed spec fn is_traced(&self) -> bool {
        self.trace@
    }

    /// Makes the error. Whether it holds a backtrace rests on the environment.
    fn from_kind(kind: PacketErrorKind) -> (error: Self)
        ensures
            error@ == kind,
    {
        Self { kind, trace: Trace::capture() }
    }

    pub(crate) fn payload_too_long(len: usize, max: usize) -> (error: Self)
        ensures
            error@ == (PacketErrorKind::PayloadTooLong { len, max }),
    {
        Self::from_kind(PacketErrorKind::PayloadTooLong { len, max })
    }

    pub(crate) fn ttl_out_of_range(ttl: u8) -> (error: Self)
        ensures
            error@ == (PacketErrorKind::TtlOutOfRange { ttl }),
    {
        Self::from_kind(PacketErrorKind::TtlOutOfRange { ttl })
    }

    /// Returns `true` if the payload exceeded the applicable limit.
    #[must_use]
    pub fn is_payload_too_long(&self) -> (yes: bool)
        ensures
            yes == (self@ is PayloadTooLong),
    {
        matches!(self.kind, PacketErrorKind::PayloadTooLong { .. })
    }

    /// Returns `true` if the requested TTL was outside `1..=MAX_TTL`.
    #[must_use]
    pub fn is_ttl_out_of_range(&self) -> (yes: bool)
        ensures
            yes == (self@ is TtlOutOfRange),
    {
        matches!(self.kind, PacketErrorKind::TtlOutOfRange { .. })
    }

    /// Explains the error in one sentence, and with the backtrace that was
    /// captured, if one was.
    #[must_use]
    pub fn message(&self) -> (message: String)
        ensures
            trace::explains(message@, packet_error_text(self@), self.is_traced()),
    {
        self.trace.explain(self.sentence())
    }

    /// The sentence of the message.
    pub(crate) fn sentence(&self) -> (sentence: String)
        ensures
            sentence@ == packet_error_text(self@),
    {
        let mut sentence = String::new();
        match self.kind {
            PacketErrorKind::PayloadTooLong { len, max } => {
                sentence.append("payload is ");
                push_decimal(&mut sentence, len);
                sentence.append(" bytes but at most ");
                push_decimal(&mut sentence, max);
                sentence.append(" bytes fit this packet shape");
            },
            PacketErrorKind::TtlOutOfRange { ttl } => {
                sentence.append("ttl ");
                push_decimal(&mut sentence, ttl as usize);
                sentence.append(" is outside the valid on-wire range 1..=");
                push_decimal(&mut sentence, MAX_TTL as usize);
            },
        }
        assert(sentence@ =~= packet_error_text(self@));
        sentence
    }
}

/// Why received bytes could not be decoded.
#[derive(Copy, Clone, Debug)]
pub enum WireErrorKind {
    /// Frame shorter than its header requires.
    Truncated { len: usize },
    /// Frame longer than the capacity that was to hold it.
    Oversized { len: usize },
    /// The version bits name no known version.
    UnsupportedVersion { version: u8 },
    /// A TTL of zero arrived on the wire, which the protocol forbids.
    ZeroTtl,
}

/// Failure to decode an on-air frame into a [`Packet`](crate::Packet).
#[derive(Debug)]
pub struct WireError {
    kind: WireErrorKind,
    trace: Trace,
}

impl View for WireError {
    type V = WireErrorKind;

    closed spec fn view(&self) -> WireErrorKind {
        self.kind
    }
}

/// The sentence that explains a wire error.
pub open spec fn wire_error_text(kind: WireErrorKind) -> Seq<char> {
    match kind {
        WireErrorKind::Truncated { len } => "frame of "@ + text::decimal(len as nat)
            + " bytes is too short for its header"@,
        WireErrorKind::Oversized { len } => "frame of "@ + text::decimal(len as nat)
            + " bytes exceeds the "@ + text::decimal(MAX_FRAME_LEN as nat) + "-byte on-air budget"@,
        WireErrorKind::UnsupportedVersion { version } => "unsupported wire version "@
            + text::decimal(version as nat),
        WireErrorKind::ZeroTtl => "frame arrived with ttl 0, which must never be on the wire"@,
    }
}

impl WireError {
    /// Whether the error holds a backtrace.
    pub closed spec fn is_traced(&self) -> bool {
        self.trace@
    }

    /// Makes the error. Whether it holds a backtrace rests on the environment.
    fn from_kind(kind: WireErrorKind) -> (error: Self)
        ensures
            error@ == kind,
    {
        Self { kind, trace: Trace::capture() }
    }

    pub(crate) fn truncated(len: usize) -> (error: Self)
        ensures
            error@ == (WireErrorKind::Truncated { len }),
    {
        Self::from_kind(WireErrorKind::Truncated { len })
    }

    pub(crate) fn oversized(len: usize) -> (error: Self)
        ensures
            error@ == (WireErrorKind::Oversized { len }),
    {
        Self::from_kind(WireErrorKind::Oversized { len })
    }

    pub(crate) fn unsupported_version(version: u8) -> (error: Self)
        ensures
            error@ == (WireErrorKind::UnsupportedVersion { version }),
    {
        Self::from_kind(WireErrorKind::UnsupportedVersion { version })
    }

    pub(crate) fn zero_ttl() -> (error: Self)
        ensures
            error@ == WireErrorKind::ZeroTtl,
    {
        Self::from_kind(WireErrorKind::ZeroTtl)
    }

    /// Returns `true` if the frame was too short to contain its header.
    #[must_use]
    pub fn is_truncated(&self) -> (yes: bool)
        ensures
            yes == (self@ is Truncated),
    {
        matches!(self.kind, WireErrorKind::Truncated { .. })
    }

    /// Returns `true` if the frame exceeded the capacity that was to hold it.
    #[must_use]
    pub fn is_oversized(&self) -> (yes: bool)
        ensures
            yes == (self@ is Oversized),
    {
        matches!(self.kind, WireErrorKind::Oversized { .. })
    }

    /// Returns `true` if the frame carried an unknown protocol version.
    #[must_use]
    pub fn is_unsupported_version(&self) -> (yes: bool)
        ensures
            yes == (self@ is UnsupportedVersion),
    {
        matches!(self.kind, WireErrorKind::UnsupportedVersion { .. })
    }

    /// Returns `true` if the frame arrived with the forbidden TTL of zero.
    #[must_use]
    pub fn is_zero_ttl(&self) -> (yes: bool)
        ensures
            yes == (self@ is ZeroTtl),
    {
        matches!(self.kind, WireErrorKind::ZeroTtl)
    }

    /// Explains the error in one sentence, and with the backtrace that was
    /// captured, if one was.
    #[must_use]
    pub fn message(&self) -> (message: String)
        ensures
            trace::explains(message@, wire_error_text(self@), self.is_traced()),
    {
        self.trace.explain(self.sentence())
    }

    /// The sentence of the message.
    pub(crate) fn sentence(&self) -> (sentence: String)
        ensures
            sentence@ == wire_error_text(self@),
    {
        let mut sentence = String::new();
        match self.kind {
            WireErrorKind::Truncated { len } => {
                sentence.append("frame of ");
                push_decimal(&mut sentence, len);
                sentence.append(" bytes is too short for its header");
            },
            WireErrorKind::Oversized { len } => {
                sentence.append("frame of ");
                push_decimal(&mut sentence, len);
                sentence.append(" bytes exceeds the ");
                push_decimal(&mut sentence, MAX_FRAME_LEN);
                sentence.append("-byte on-air budget");
            },
            WireErrorKind::UnsupportedVersion { version } => {
                sentence.append("unsupported wire version ");
                push_decimal(&mut sentence, version as usize);
            },
            WireErrorKind::ZeroTtl => {
                sentence.append("frame arrived with ttl 0, which must never be on the wire");
            },
        }
        assert(sentence@ =~= wire_error_text(self@));
        sentence
    }
}

/// Law: the explanation of a packet error tells what was wrong: errors with
/// other numbers, or of another kind, read otherwise.
pub proof fn packet_error_texts_tell_the_numbers(a: PacketErrorKind, b: PacketErrorKind)
    requires
        packet_error_text(a) == packet_error_text(b),
    ensures
        a == b,
{
    reveal_strlit("payload is ");
    reveal_strlit(" bytes but at most ");
    reveal_strlit(" bytes fit this packet shape");
    reveal_strlit("ttl ");
    reveal_strlit(" is outside the valid on-wire range 1..=");
    let (x, y) = (packet_error_text(a), packet_error_text(b));
    assert(x[0] == y[0]);
    match (a, b) {
        (
            PacketErrorKind::PayloadTooLong { len, max },
            PacketErrorKind::PayloadTooLong { len: other_len, max: other_max },
        ) => {
            let start = "payload is "@;
            let middle = " bytes but at most "@;
            let end = " bytes fit this packet shape"@;
            let p = middle + text::decimal(max as nat) + end;
            let q = middle + text::decimal(other_max as nat) + end;
            assert(x.skip(start.len() as int) =~= text::decimal(len as nat) + p);
            assert(y.skip(start.len() as int) =~= text::decimal(other_len as nat) + q);
            assert(p[0] == ' ' && q[0] == ' ');
            text::a_number_in_a_text_is_told_apart(len as nat, p, other_len as nat, q);
            assert(p.skip(middle.len() as int) =~= text::decimal(max as nat) + end);
            assert(q.skip(middle.len() as int) =~= text::decimal(other_max as nat) + end);
            text::a_number_in_a_text_is_told_apart(max as nat, end, other_max as nat, end);
        },
        (
            PacketErrorKind::TtlOutOfRange { ttl },
            PacketErrorKind::TtlOutOfRange { ttl: other },
        ) => {
            let start = "ttl "@;
            let end = " is outside the valid on-wire range 1..="@ + text::decimal(MAX_TTL as nat);
            assert(x.skip(start.len() as int) =~= text::decimal(ttl as nat) + end);
            assert(y.skip(start.len() as int) =~= text::decimal(other as nat) + end);
            assert(end[0] == ' ');
            text::a_number_in_a_text_is_told_apart(ttl as nat, end, other as nat, end);
        },
        _ => {},
    }
}

/// Law: the explanation of a wire error tells what was wrong: errors with other
/// numbers, or of another kind, read otherwise.
pub proof fn wire_error_texts_tell_the_numbers(a: WireErrorKind, b: WireErrorKind)
    requires
        wire_error_text(a) == wire_error_text(b),
    ensures
        a == b,
{
    reveal_strlit("frame of ");
    reveal_strlit(" bytes is too short for its header");
    reveal_strlit(" bytes exceeds the ");
    reveal_strlit("-byte on-air budget");
    reveal_strlit("unsupported wire version ");
    reveal_strlit("frame arrived with ttl 0, which must never be on the wire");
    let (x, y) = (wire_error_text(a), wire_error_text(b));
    assert(x[0] == y[0] && x[6] == y[6]);
    match (a, b) {
        (
            WireErrorKind::UnsupportedVersion { version },
            WireErrorKind::UnsupportedVersion { version: other },
        ) => {
            let start = "unsupported wire version "@;
            let none = Seq::<char>::empty();
            assert(x.skip(start.len() as int) =~= text::decimal(version as nat) + none);
            assert(y.skip(start.len() as int) =~= text::decimal(other as nat) + none);
            text::a_number_in_a_text_is_told_apart(version as nat, none, other as nat, none);
        },
        _ => {
            if frame_len_and_rest(a) is Some && frame_len_and_rest(b) is Some {
                let (len, rest) = frame_len_and_rest(a)->0;
                let (other_len, other_rest) = frame_len_and_rest(b)->0;
                let start = "frame of "@;
                assert(x.skip(start.len() as int) =~= text::decimal(len) + rest);
                assert(y.skip(start.len() as int) =~= text::decimal(other_len) + other_rest);
                assert(rest[0] == ' ' && other_rest[0] == ' ');
                text::a_number_in_a_text_is_told_apart(len, rest, other_len, other_rest);
                assert(rest[7] == other_rest[7]);
            }
        },
    }
}

/// The length that an explanation names, and what follows it.
spec fn frame_len_and_rest(kind: WireErrorKind) -> Option<(nat, Seq<char>)> {
    match kind {
        WireErrorKind::Truncated { len } => Some(
            (len as nat, " bytes is too short for its header"@),
        ),
        WireErrorKind::Oversized { len } => Some(
            (
                len as nat,
                " bytes exceeds the "@ + text::decimal(MAX_FRAME_LEN as nat)
                    + "-byte on-air budget"@,
            ),
        ),
        _ => None,
    }
}

} // verus!
