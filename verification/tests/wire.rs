//! The frame codec.

use poholos::wire::{HEADER_LEN_HEARSAY, HEADER_LEN_TELEGRAM};
use poholos::{
    decode, encode, Frame, FrameN, Packet, PacketN, WireId, MAX_EXT_FRAME_LEN, MAX_FRAME_LEN,
    MAX_PAYLOAD_HEARSAY, MAX_PAYLOAD_TELEGRAM, WIRE_VERSION, WIRE_VERSION_EXT,
};

/// The sentence of an error message, without the backtrace that may follow.
fn sentence(message: &str) -> &str {
    message.lines().next().unwrap()
}

const HAS_DEST_BIT: u8 = 0b0010_0000;
const VERSION_SHIFT: u8 = 6;

fn src() -> WireId {
    WireId::new(0x1122_3344)
}

fn dest() -> WireId {
    WireId::new(0x5566_7788)
}

#[test]
fn hearsay_round_trip_and_layout() {
    let p = Packet::hearsay_with(src(), 0xBEEF, b"hi", 16).unwrap();
    let f = encode(&p);
    assert_eq!(f.len(), HEADER_LEN_HEARSAY + 2);
    let b = f.as_bytes();
    assert_eq!(b[0], 16); // ver 0, no dest, ttl 16
    assert_eq!(&b[1..3], &[0xBE, 0xEF]);
    assert_eq!(&b[3..7], &[0x11, 0x22, 0x33, 0x44]);
    assert_eq!(&b[7..], b"hi");
    assert_eq!(decode(b).unwrap(), p);
}

#[test]
fn telegram_round_trip_and_layout() {
    let p = Packet::telegram_with(src(), dest(), 1, b"yo", 5).unwrap();
    let f = encode(&p);
    assert_eq!(f.len(), HEADER_LEN_TELEGRAM + 2);
    let b = f.as_bytes();
    assert_eq!(b[0], HAS_DEST_BIT | 5);
    assert_eq!(&b[7..11], &[0x55, 0x66, 0x77, 0x88]);
    assert_eq!(decode(b).unwrap(), p);
}

#[test]
fn max_payloads_exactly_fill_the_frame() {
    let p = Packet::hearsay(src(), 0, &[9u8; MAX_PAYLOAD_HEARSAY]).unwrap();
    assert_eq!(encode(&p).len(), MAX_FRAME_LEN);
    let p = Packet::telegram(src(), dest(), 0, &[9u8; MAX_PAYLOAD_TELEGRAM]).unwrap();
    assert_eq!(encode(&p).len(), MAX_FRAME_LEN);
}

#[test]
fn decode_rejects_bad_frames() {
    assert!(decode::<MAX_FRAME_LEN>(&[0u8; 3])
        .unwrap_err()
        .is_truncated());
    assert!(decode::<MAX_FRAME_LEN>(&[0u8; MAX_FRAME_LEN + 1])
        .unwrap_err()
        .is_oversized());

    // Unicast flag set but header incomplete.
    let mut short = [0u8; HEADER_LEN_HEARSAY];
    short[0] = HAS_DEST_BIT | 5;
    assert!(decode::<MAX_FRAME_LEN>(&short).unwrap_err().is_truncated());

    // Unsupported version (2): versions 0 and 1 are accepted, 2 and 3 are
    // reserved.
    let p = Packet::hearsay(src(), 0, b"x").unwrap();
    let mut bytes = *encode(&p).as_bytes().first_chunk::<8>().unwrap();
    bytes[0] |= 0b1000_0000;
    assert!(decode::<MAX_FRAME_LEN>(&bytes)
        .unwrap_err()
        .is_unsupported_version());

    // TTL 0 on the wire.
    let mut zero = [0u8; HEADER_LEN_HEARSAY + 1];
    zero[0] = 0;
    assert!(decode::<MAX_FRAME_LEN>(&zero).unwrap_err().is_zero_ttl());
}

#[test]
fn frame_copy_from_checks_length() {
    Frame::copy_from(&[0u8; MAX_FRAME_LEN]).unwrap();
    assert!(Frame::copy_from(&[0u8; MAX_FRAME_LEN + 1])
        .unwrap_err()
        .is_oversized());
}

#[test]
fn ext_capacity_round_trips() {
    const CAP: usize = 211;
    let payload = [0xABu8; 200];

    let p = PacketN::<CAP>::hearsay_with(src(), 0x1234, &payload, 16).unwrap();
    let f = encode(&p);
    assert_eq!(f.len(), HEADER_LEN_HEARSAY + payload.len());
    assert_eq!(decode::<CAP>(f.as_bytes()).unwrap(), p);

    let p = PacketN::<CAP>::telegram_with(src(), dest(), 7, &payload[..150], 5).unwrap();
    let f = encode(&p);
    assert_eq!(f.len(), HEADER_LEN_TELEGRAM + 150);
    assert_eq!(decode::<CAP>(f.as_bytes()).unwrap(), p);
}

#[test]
fn long_frame_is_tagged_version_one() {
    let p = PacketN::<MAX_EXT_FRAME_LEN>::hearsay_with(src(), 1, &[7u8; 100], 16).unwrap();
    let f = encode(&p);
    assert!(f.len() > MAX_FRAME_LEN);
    assert_eq!(f.as_bytes()[0] >> VERSION_SHIFT, WIRE_VERSION_EXT);
    assert_eq!(decode::<MAX_EXT_FRAME_LEN>(f.as_bytes()).unwrap(), p);
}

#[test]
fn short_frame_stays_version_zero_at_ext_capacity() {
    let p = PacketN::<MAX_EXT_FRAME_LEN>::hearsay_with(src(), 0xBEEF, b"hi", 16).unwrap();
    let f = encode(&p);
    assert!(f.len() <= MAX_FRAME_LEN);
    assert_eq!(f.as_bytes()[0] >> VERSION_SHIFT, WIRE_VERSION);
    let legacy = encode(&Packet::hearsay_with(src(), 0xBEEF, b"hi", 16).unwrap());
    assert_eq!(f.as_bytes(), legacy.as_bytes());
}

#[test]
fn legacy_decode_rejects_oversized_ext_frame() {
    let p = PacketN::<MAX_EXT_FRAME_LEN>::hearsay_with(src(), 1, &[7u8; 100], 16).unwrap();
    let f = encode(&p);
    assert!(decode::<MAX_FRAME_LEN>(f.as_bytes())
        .unwrap_err()
        .is_oversized());
}

#[test]
fn ext_frame_copy_from_checks_capacity() {
    FrameN::<211>::copy_from(&[0u8; 211]).unwrap();
    assert!(FrameN::<211>::copy_from(&[0u8; 212])
        .unwrap_err()
        .is_oversized());
}

#[test]
fn each_wire_error_explains_itself() {
    let truncated = decode::<MAX_FRAME_LEN>(&[0x10, 0, 1]).unwrap_err();
    assert_eq!(
        sentence(&truncated.message()),
        "frame of 3 bytes is too short for its header"
    );
    let oversized = decode::<MAX_FRAME_LEN>(&[0x10; 40]).unwrap_err();
    assert_eq!(
        sentence(&oversized.message()),
        "frame of 40 bytes exceeds the 22-byte on-air budget"
    );
    let version = decode::<MAX_FRAME_LEN>(&[0xD0; 9]).unwrap_err();
    assert_eq!(sentence(&version.message()), "unsupported wire version 3");
    let ttl = decode::<MAX_FRAME_LEN>(&[0x20; 7]);
    assert!(ttl.unwrap_err().is_zero_ttl());
    let ttl = decode::<MAX_FRAME_LEN>(&[0x40; 7]).unwrap_err();
    assert_eq!(
        sentence(&ttl.message()),
        "frame arrived with ttl 0, which must never be on the wire"
    );
}

#[test]
fn the_version_is_checked_before_the_ttl_and_the_full_header() {
    // Version 2, TTL 0, addressee flag with a missing addressee.
    let bytes = [0b1010_0000u8, 0, 0, 0, 0, 0, 0];
    assert!(decode::<MAX_FRAME_LEN>(&bytes)
        .unwrap_err()
        .is_unsupported_version());
    // Version 1 is understood in a short frame, and the TTL comes next.
    let bytes = [0b0110_0000u8, 0, 0, 0, 0, 0, 0];
    assert!(decode::<MAX_FRAME_LEN>(&bytes).unwrap_err().is_zero_ttl());
    let bytes = [0b0110_0001u8, 0, 0, 0, 0, 0, 0];
    assert!(decode::<MAX_FRAME_LEN>(&bytes).unwrap_err().is_truncated());
}

#[test]
fn re_encoding_a_short_version_one_frame_resets_its_version() {
    let bytes = [0b0101_0000u8, 0x01, 0x02, 0xAA, 0xBB, 0xCC, 0xDD, b'x'];
    let p: Packet = decode(&bytes).unwrap();
    assert_eq!(p.ttl(), 16);
    assert_eq!(p.seq(), 0x0102);
    assert_eq!(p.src(), WireId::new(0xAABB_CCDD));
    assert_eq!(p.dest(), None);
    assert_eq!(p.payload(), b"x");
    let again = encode(&p);
    assert_eq!(again.as_bytes()[0], 0b0001_0000);
    assert_eq!(&again.as_bytes()[1..], &bytes[1..]);
}

#[test]
fn empty_payloads_round_trip() {
    let p = Packet::telegram(src(), dest(), 3, b"").unwrap();
    let f = encode(&p);
    assert_eq!(f.len(), HEADER_LEN_TELEGRAM);
    assert!(!f.is_empty());
    assert_eq!(decode(f.as_ref()).unwrap(), p);
    assert!(Frame::copy_from(&[]).unwrap().is_empty());
}

#[test]
fn frames_compare_by_their_bytes() {
    let a = Frame::copy_from(&[1, 2, 3]).unwrap();
    let b = Frame::copy_from(&[1, 2, 3, 0]).unwrap();
    assert_ne!(a, b);
    assert_eq!(a, Frame::copy_from(&[1, 2, 3]).unwrap());
}
