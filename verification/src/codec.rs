//! Serialization of packets and frames off-air, with postcard.
//!
//! The format of [`wire`](crate::wire) is the *on-air* codec. This module
//! instead serializes packets in host-side contexts, such as log files, IPC
//! or bridging over TCP, into a caller-provided buffer.
//!
//! A packet is written as its fields in order: TTL, sequence number, source,
//! addressee and payload.
//!
//! A [`CodecError`] carries the error of `postcard` where `postcard` failed,
//! and [`CodecError::into_postcard`] gives every failure as one.

use crate::error;
use crate::error::{PacketError, PacketErrorKind, WireError, WireErrorKind};
use crate::node_id::WireId;
use crate::packet;
use crate::packet::{PacketN, PacketView, MAX_CAPACITY};
use crate::trace;
use crate::wire::{FrameN, HEADER_LEN_TELEGRAM};
use vstd::prelude::*;

verus! {

/// The error of `postcard`, as an opaque type.
#[verifier::external_type_specification]
#[verifier::external_body]
pub struct ExPostcardError(postcard::Error);

/// A number as a varint: seven bits per byte, least significant first, the
/// top bit set in all bytes but the last.
pub open spec fn varint(value: nat) -> Seq<u8>
    decreases value,
{
    if value < 128 {
        seq![value as u8]
    } else {
        seq![(value % 128 + 128) as u8] + varint(value / 128)
    }
}

/// A byte string as its length and its bytes.
pub open spec fn postcard_bytes(bytes: Seq<u8>) -> Seq<u8> {
    varint(bytes.len()) + bytes
}

/// An optional number as a tag byte and the number.
pub open spec fn postcard_option(value: Option<u32>) -> Seq<u8> {
    match value {
        Some(value) => seq![1u8] + varint(value as nat),
        None => seq![0u8],
    }
}

/// A packet as its fields in order.
pub open spec fn postcard_packet(packet: PacketView) -> Seq<u8> {
    seq![packet.ttl] + varint(packet.seq as nat) + varint(packet.src as nat) + postcard_option(
        packet.dest,
    ) + postcard_bytes(packet.payload)
}

/// A buffer after some prefix of `encoding` was written over its start.
pub open spec fn partly_written(encoding: Seq<u8>, before: Seq<u8>, after: Seq<u8>) -> bool {
    exists|k: int|
        0 <= k <= before.len() && k <= encoding.len() && after == #[trigger] encoding.take(k)
            + before.skip(k)
}

/// The encoding of a packet with these fields.
pub open spec fn fields_encoded(
    ttl: u8,
    seq: u16,
    src: u32,
    dest: Option<u32>,
    payload: Seq<u8>,
) -> Seq<u8> {
    postcard_packet(PacketView { ttl, seq, src, dest, payload })
}

/// The error with which `postcard` refuses to write `encoding` into a buffer
/// of `room` bytes. The type is opaque, so no contract says which variant it
/// is.
pub uninterp spec fn postcard_full(encoding: Seq<u8>, room: nat) -> postcard::Error;

/// `postcard::to_slice` on a packet's fields as a tuple: claims that it
/// succeeds exactly where the encoding fits `buf`, that it then writes the
/// encoding at the start of `buf` and returns that part, and that a failed
/// call writes no more than some prefix of the encoding and gives an error
/// that depends on the encoding and the length of `buf` alone.
#[verifier::external_body]
fn write_fields<'a>(
    ttl: u8,
    seq: u16,
    src: u32,
    dest: Option<u32>,
    payload: &[u8],
    buf: &'a mut [u8],
) -> (used: Result<&'a mut [u8], postcard::Error>)
    ensures
        used is Ok <==> fields_encoded(ttl, seq, src, dest, payload@).len() <= old(buf)@.len(),
        used matches Ok(slice) ==> slice@ == fields_encoded(ttl, seq, src, dest, payload@),
        used matches Ok(slice) ==> final(buf)@ == final(slice)@ + old(buf)@.skip(
            slice@.len() as int,
        ),
        used matches Err(error) ==> error == postcard_full(
            fields_encoded(ttl, seq, src, dest, payload@),
            old(buf)@.len(),
        ),
        used is Err ==> partly_written(
            fields_encoded(ttl, seq, src, dest, payload@),
            old(buf)@,
            final(buf)@,
        ),
{
    postcard::to_slice(&(ttl, seq, src, dest, payload), buf)
}

/// Why a packet or a frame could not be serialized or deserialized.
#[derive(Debug)]
pub enum CodecError {
    /// The buffer is too small for the encoding; `postcard` says so.
    BufferFull(postcard::Error),
    /// The bytes are not an encoding of the expected shape; `postcard` says
    /// why.
    Malformed(postcard::Error),
    /// The fields do not make a valid packet.
    InvalidPacket(PacketError),
    /// The frame exceeds its capacity.
    OversizedFrame(WireError),
}

/// What a [`CodecError`] says.
pub enum CodecErrorKind {
    BufferFull(postcard::Error),
    Malformed(postcard::Error),
    InvalidPacket(PacketErrorKind),
    OversizedFrame(WireErrorKind),
}

impl View for CodecError {
    type V = CodecErrorKind;

    open spec fn view(&self) -> CodecErrorKind {
        match self {
            CodecError::BufferFull(error) => CodecErrorKind::BufferFull(*error),
            CodecError::Malformed(error) => CodecErrorKind::Malformed(*error),
            CodecError::InvalidPacket(error) => CodecErrorKind::InvalidPacket(error@),
            CodecError::OversizedFrame(error) => CodecErrorKind::OversizedFrame(error@),
        }
    }
}

/// The sentence that explains a codec error.
pub open spec fn codec_error_text(kind: CodecErrorKind) -> Seq<char> {
    match kind {
        CodecErrorKind::BufferFull(_) => "the buffer is too small for the encoding"@,
        CodecErrorKind::Malformed(_) => "the bytes are not a valid encoding"@,
        CodecErrorKind::InvalidPacket(kind) => error::packet_error_text(kind),
        CodecErrorKind::OversizedFrame(kind) => error::wire_error_text(kind),
    }
}

/// The error of `postcard` that stands for a failure which a reader of the
/// decoded values explains by `message`. The type is opaque, so no contract
/// says which variant it is.
pub uninterp spec fn postcard_custom(message: Seq<char>) -> postcard::Error;

/// `serde::de::Error::custom` of `postcard::Error`: claims that the error
/// depends on the message alone.
#[verifier::external_body]
fn custom_error(message: &str) -> (error: postcard::Error)
    ensures
        error == postcard_custom(message@),
{
    serde::de::Error::custom(message)
}

/// A codec error as one of `postcard`.
pub open spec fn as_postcard(kind: CodecErrorKind) -> postcard::Error {
    match kind {
        CodecErrorKind::BufferFull(error) => error,
        CodecErrorKind::Malformed(error) => error,
        _ => postcard_custom(codec_error_text(kind)),
    }
}

impl CodecError {
    /// Whether the error holds a backtrace.
    pub open spec fn is_traced(&self) -> bool {
        match self {
            CodecError::InvalidPacket(error) => error.is_traced(),
            CodecError::OversizedFrame(error) => error.is_traced(),
            _ => false,
        }
    }

    /// Explains the error in one sentence, and with the backtrace that was
    /// captured, if one was.
    #[must_use]
    pub fn message(&self) -> (message: String)
        ensures
            trace::explains(message@, codec_error_text(self@), self.is_traced()),
    {
        match self {
            CodecError::BufferFull(_) => "the buffer is too small for the encoding".to_owned(),
            CodecError::Malformed(_) => "the bytes are not a valid encoding".to_owned(),
            CodecError::InvalidPacket(error) => error.message(),
            CodecError::OversizedFrame(error) => error.message(),
        }
    }

    /// Turns the error into one of `postcard`: its own where it failed, and
    /// its error for decoded values that are refused where they make no packet
    /// or no frame.
    #[must_use]
    pub fn into_postcard(self) -> (error: postcard::Error)
        ensures
            error == as_postcard(self@),
    {
        match self {
            CodecError::BufferFull(error) => error,
            CodecError::Malformed(error) => error,
            CodecError::InvalidPacket(error) => custom_error(error.sentence().as_str()),
            CodecError::OversizedFrame(error) => custom_error(error.sentence().as_str()),
        }
    }
}

/// Serializes a packet with postcard into `buf`, returning the used slice.
///
/// # Errors
/// Returns [`CodecError::BufferFull`] if `buf` is too small.
pub fn to_postcard_slice<'a, const CAP: usize>(packet: &PacketN<CAP>, buf: &'a mut [u8]) -> (used:
    Result<&'a mut [u8], CodecError>)
    ensures
        used is Ok <==> postcard_packet(packet@).len() <= old(buf)@.len(),
        used matches Ok(slice) ==> slice@ == postcard_packet(packet@),
        used matches Ok(slice) ==> final(buf)@ == final(slice)@ + old(buf)@.skip(
            slice@.len() as int,
        ),
        used matches Err(error) ==> error@ == CodecErrorKind::BufferFull(
            postcard_full(postcard_packet(packet@), old(buf)@.len()),
        ),
        used is Err ==> partly_written(postcard_packet(packet@), old(buf)@, final(buf)@),
{
    let dest = match packet.dest() {
        Some(dest) => Some(dest.get()),
        None => None,
    };
    match write_fields(
        packet.ttl(),
        packet.seq(),
        packet.src().get(),
        dest,
        packet.payload(),
        buf,
    ) {
        Ok(slice) => Ok(slice),
        Err(error) => Err(CodecError::BufferFull(error)),
    }
}

/// What `postcard` reads from the start of `bytes` as a packet's fields, or
/// why it cannot, on a machine with words of `word` bits.
pub uninterp spec fn postcard_fields(bytes: Seq<u8>, word: u32) -> Result<
    (u8, u16, u32, Option<u32>, Seq<u8>),
    postcard::Error,
>;

/// The fields of a packet, in the order in which they are written.
pub open spec fn fields_of(packet: PacketView) -> (u8, u16, u32, Option<u32>, Seq<u8>) {
    (packet.ttl, packet.seq, packet.src, packet.dest, packet.payload)
}

/// The fields that were read, with the payload by its bytes.
pub open spec fn fields_read(
    got: Result<(u8, u16, u32, Option<u32>, &[u8]), postcard::Error>,
) -> Result<(u8, u16, u32, Option<u32>, Seq<u8>), postcard::Error> {
    match got {
        Ok((ttl, seq, src, dest, payload)) => Ok((ttl, seq, src, dest, payload@)),
        Err(error) => Err(error),
    }
}

/// Whether the fields of `packet` were read.
pub open spec fn is_read_as(
    got: Result<(u8, u16, u32, Option<u32>, &[u8]), postcard::Error>,
    packet: PacketView,
) -> bool {
    fields_read(got) == Ok::<(u8, u16, u32, Option<u32>, Seq<u8>), postcard::Error>(
        fields_of(packet),
    )
}

/// `postcard::from_bytes` on a packet's fields as a tuple: claims that the
/// result, the error included in it, depends on the bytes and the word size
/// alone, and that the fields of a packet are read back from its encoding,
/// whatever follows it.
#[verifier::external_body]
fn read_fields(bytes: &[u8]) -> (got: Result<
    (u8, u16, u32, Option<u32>, &[u8]),
    postcard::Error,
>)
    ensures
        fields_read(got) == postcard_fields(bytes@, usize::BITS),
        forall|packet: PacketView, rest: Seq<u8>|
            bytes@ == #[trigger] (postcard_packet(packet) + rest) ==> is_read_as(got, packet),
{
    postcard::from_bytes(bytes)
}

/// What becomes of the fields that were read: a packet of capacity `cap` if
/// they make a valid one.
pub open spec fn packet_of_fields(
    fields: Result<(u8, u16, u32, Option<u32>, Seq<u8>), postcard::Error>,
    cap: nat,
) -> Result<PacketView, CodecErrorKind> {
    match fields {
        Err(error) => Err(CodecErrorKind::Malformed(error)),
        Ok((ttl, seq, src, dest, payload)) => match packet::built(
            PacketView { ttl, seq, src, dest, payload },
            cap,
        ) {
            Ok(packet) => Ok(packet),
            Err(kind) => Err(CodecErrorKind::InvalidPacket(kind)),
        },
    }
}

/// The views of what a reader of packets returned.
pub open spec fn packet_outcome<const CAP: usize>(got: Result<PacketN<CAP>, CodecError>) -> Result<
    PacketView,
    CodecErrorKind,
> {
    match got {
        Ok(packet) => Ok(packet@),
        Err(error) => Err(error@),
    }
}

/// Makes a packet of deserialized fields.
///
/// # Errors
/// Returns [`CodecError::InvalidPacket`] if the TTL or the payload length is
/// one that no packet has.
pub fn packet_from_fields<const CAP: usize>(
    ttl: u8,
    seq: u16,
    src: u32,
    dest: Option<u32>,
    payload: &[u8],
) -> (got: Result<PacketN<CAP>, CodecError>)
    requires
        HEADER_LEN_TELEGRAM <= CAP <= MAX_CAPACITY,
    ensures
        packet_outcome(got) == packet_of_fields(
            Ok((ttl, seq, src, dest, payload@)),
            CAP as nat,
        ),
{
    let made = match dest {
        Some(dest) => PacketN::telegram_with(
            WireId::new(src),
            WireId::new(dest),
            seq,
            payload,
            ttl,
        ),
        None => PacketN::hearsay_with(WireId::new(src), seq, payload, ttl),
    };
    match made {
        Ok(packet) => Ok(packet),
        Err(error) => Err(CodecError::InvalidPacket(error)),
    }
}

/// Deserializes a packet from postcard bytes.
///
/// What [`to_postcard_slice`] wrote is read back, whatever follows it.
///
/// # Errors
/// Returns [`CodecError`] if `bytes` does not start with a valid encoding of
/// a packet of this capacity.
pub fn from_postcard<const CAP: usize>(bytes: &[u8]) -> (got: Result<PacketN<CAP>, CodecError>)
    requires
        HEADER_LEN_TELEGRAM <= CAP <= MAX_CAPACITY,
    ensures
        packet_outcome(got) == packet_of_fields(
            postcard_fields(bytes@, usize::BITS),
            CAP as nat,
        ),
        forall|packet: PacketView, rest: Seq<u8>|
            packet::is_valid(packet, CAP as nat) && bytes@ == #[trigger] (postcard_packet(packet)
                + rest) ==> packet_outcome(got) == Ok::<PacketView, CodecErrorKind>(packet),
{
    match read_fields(bytes) {
        Ok((ttl, seq, src, dest, payload)) => packet_from_fields(ttl, seq, src, dest, payload),
        Err(error) => Err(CodecError::Malformed(error)),
    }
}

/// `postcard::to_slice` on a byte string: claims that it succeeds exactly
/// where the encoding fits `buf`, that it then writes the encoding at the
/// start of `buf` and returns that part, and that a failed call writes no
/// more than some prefix of the encoding and gives an error that depends on
/// the encoding and the length of `buf` alone.
#[verifier::external_body]
fn write_bytes<'a>(bytes: &[u8], buf: &'a mut [u8]) -> (used: Result<
    &'a mut [u8],
    postcard::Error,
>)
    ensures
        used is Ok <==> postcard_bytes(bytes@).len() <= old(buf)@.len(),
        used matches Ok(slice) ==> slice@ == postcard_bytes(bytes@),
        used matches Ok(slice) ==> final(buf)@ == final(slice)@ + old(buf)@.skip(
            slice@.len() as int,
        ),
        used matches Err(error) ==> error == postcard_full(
            postcard_bytes(bytes@),
            old(buf)@.len(),
        ),
        used is Err ==> partly_written(postcard_bytes(bytes@), old(buf)@, final(buf)@),
{
    postcard::to_slice(bytes, buf)
}

/// Serializes a frame with postcard into `buf`, returning the used slice.
///
/// # Errors
/// Returns [`CodecError::BufferFull`] if `buf` is too small.
pub fn frame_to_postcard_slice<'a, const CAP: usize>(frame: &FrameN<CAP>, buf: &'a mut [u8]) -> (used:
    Result<&'a mut [u8], CodecError>)
    ensures
        used is Ok <==> postcard_bytes(frame@).len() <= old(buf)@.len(),
        used matches Ok(slice) ==> slice@ == postcard_bytes(frame@),
        used matches Ok(slice) ==> final(buf)@ == final(slice)@ + old(buf)@.skip(
            slice@.len() as int,
        ),
        used matches Err(error) ==> error@ == CodecErrorKind::BufferFull(
            postcard_full(postcard_bytes(frame@), old(buf)@.len()),
        ),
        used is Err ==> partly_written(postcard_bytes(frame@), old(buf)@, final(buf)@),
{
    match write_bytes(frame.as_bytes(), buf) {
        Ok(slice) => Ok(slice),
        Err(error) => Err(CodecError::BufferFull(error)),
    }
}

/// What `postcard` reads from the start of `bytes` as a byte string, or why it
/// cannot, on a machine with words of `word` bits.
pub uninterp spec fn postcard_byte_string(bytes: Seq<u8>, word: u32) -> Result<
    Seq<u8>,
    postcard::Error,
>;

/// The byte string that was read.
pub open spec fn bytes_read(got: Result<&[u8], postcard::Error>) -> Result<
    Seq<u8>,
    postcard::Error,
> {
    match got {
        Ok(bytes) => Ok(bytes@),
        Err(error) => Err(error),
    }
}

/// Whether the byte string `string` was read.
pub open spec fn is_read_as_string(
    got: Result<&[u8], postcard::Error>,
    string: Seq<u8>,
) -> bool {
    bytes_read(got) == Ok::<Seq<u8>, postcard::Error>(string)
}

/// `postcard::from_bytes` on a byte string: claims that the result, the error
/// included in it, depends on the bytes and the word size alone, and that a
/// byte string is read back from its encoding, whatever follows it.
#[verifier::external_body]
fn read_bytes(bytes: &[u8]) -> (got: Result<&[u8], postcard::Error>)
    ensures
        bytes_read(got) == postcard_byte_string(bytes@, usize::BITS),
        forall|string: Seq<u8>, rest: Seq<u8>|
            bytes@ == #[trigger] (postcard_bytes(string) + rest) ==> is_read_as_string(got, string),
{
    postcard::from_bytes(bytes)
}

/// What becomes of the byte string that was read: a frame if it fits `cap`.
pub open spec fn frame_of_bytes(string: Result<Seq<u8>, postcard::Error>, cap: nat) -> Result<
    Seq<u8>,
    CodecErrorKind,
> {
    match string {
        Err(error) => Err(CodecErrorKind::Malformed(error)),
        Ok(bytes) => if bytes.len() <= cap {
            Ok(bytes)
        } else {
            Err(
                CodecErrorKind::OversizedFrame(
                    WireErrorKind::Oversized { len: bytes.len() as usize },
                ),
            )
        },
    }
}

/// The views of what a reader of frames returned.
pub open spec fn frame_outcome<const CAP: usize>(got: Result<FrameN<CAP>, CodecError>) -> Result<
    Seq<u8>,
    CodecErrorKind,
> {
    match got {
        Ok(frame) => Ok(frame@),
        Err(error) => Err(error@),
    }
}

/// Makes a frame of a deserialized byte string.
///
/// # Errors
/// Returns [`CodecError::OversizedFrame`] if the bytes exceed the capacity.
pub fn frame_from_bytes<const CAP: usize>(bytes: &[u8]) -> (got: Result<FrameN<CAP>, CodecError>)
    requires
        CAP <= MAX_CAPACITY,
    ensures
        frame_outcome(got) == frame_of_bytes(Ok(bytes@), CAP as nat),
{
    match FrameN::copy_from(bytes) {
        Ok(frame) => Ok(frame),
        Err(error) => Err(CodecError::OversizedFrame(error)),
    }
}

/// Deserializes a frame from postcard bytes.
///
/// What [`frame_to_postcard_slice`] wrote is read back, whatever follows it.
///
/// # Errors
/// Returns [`CodecError`] if `bytes` does not start with a valid encoding of
/// a frame of this capacity.
pub fn frame_from_postcard<const CAP: usize>(bytes: &[u8]) -> (got: Result<
    FrameN<CAP>,
    CodecError,
>)
    requires
        CAP <= MAX_CAPACITY,
    ensures
        frame_outcome(got) == frame_of_bytes(
            postcard_byte_string(bytes@, usize::BITS),
            CAP as nat,
        ),
        forall|frame: Seq<u8>, rest: Seq<u8>|
            frame.len() <= CAP && bytes@ == #[trigger] (postcard_bytes(frame) + rest)
                ==> frame_outcome(got) == Ok::<Seq<u8>, CodecErrorKind>(frame),
{
    match read_bytes(bytes) {
        Ok(string) => frame_from_bytes(string),
        Err(error) => Err(CodecError::Malformed(error)),
    }
}

/// Law: the fields of a valid packet make that packet; fields that were not
/// read, or that no packet has, make none, for the reason given.
pub proof fn fields_make_their_packet(packet: PacketView, cap: nat, error: postcard::Error)
    requires
        HEADER_LEN_TELEGRAM <= cap <= MAX_CAPACITY,
    ensures
        packet_of_fields(
            Ok((packet.ttl, packet.seq, packet.src, packet.dest, packet.payload)),
            cap,
        ) matches Ok(made) ==> made == packet,
        packet::is_valid(packet, cap) <==> packet_of_fields(
            Ok((packet.ttl, packet.seq, packet.src, packet.dest, packet.payload)),
            cap,
        ) is Ok,
        packet_of_fields(Err(error), cap) == Err::<PacketView, CodecErrorKind>(
            CodecErrorKind::Malformed(error),
        ),
{
}

/// Law: a byte string makes the frame of the same bytes exactly if it fits.
pub proof fn a_byte_string_makes_its_frame(bytes: Seq<u8>, cap: nat, error: postcard::Error)
    ensures
        bytes.len() <= cap <==> frame_of_bytes(Ok(bytes), cap) is Ok,
        frame_of_bytes(Ok(bytes), cap) matches Ok(frame) ==> frame == bytes,
        frame_of_bytes(Err(error), cap) == Err::<Seq<u8>, CodecErrorKind>(
            CodecErrorKind::Malformed(error),
        ),
{
}

/// Law: an error of `postcard` is handed out as it came, and what the library
/// refuses is explained as the library explains it.
pub proof fn upstream_errors_are_handed_out(
    error: postcard::Error,
    packet: PacketErrorKind,
    frame: WireErrorKind,
)
    ensures
        as_postcard(CodecErrorKind::BufferFull(error)) == error,
        as_postcard(CodecErrorKind::Malformed(error)) == error,
        codec_error_text(CodecErrorKind::InvalidPacket(packet)) == error::packet_error_text(packet),
        codec_error_text(CodecErrorKind::OversizedFrame(frame)) == error::wire_error_text(frame),
{
}

} // verus!
