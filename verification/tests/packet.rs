//! Packets: construction, hops and dedup keys.

use poholos::{
    fnv64, ExtPacket, Packet, PacketN, WireId, DEFAULT_TTL, MAX_EXT_PAYLOAD_HEARSAY,
    MAX_EXT_PAYLOAD_TELEGRAM, MAX_PAYLOAD_HEARSAY, MAX_PAYLOAD_TELEGRAM, MAX_TTL,
};

/// The sentence of an error message, without the backtrace that may follow.
fn sentence(message: &str) -> &str {
    message.lines().next().unwrap()
}

fn src() -> WireId {
    WireId::new(0xAAAA_AAAA)
}

fn dest() -> WireId {
    WireId::new(0xBBBB_BBBB)
}

#[test]
fn hearsay_uses_default_ttl_and_max_payload() {
    let p = Packet::hearsay(src(), 1, &[7u8; MAX_PAYLOAD_HEARSAY]).unwrap();
    assert_eq!(p.ttl(), DEFAULT_TTL);
    assert_eq!(p.payload().len(), MAX_PAYLOAD_HEARSAY);
    Packet::hearsay(src(), 1, &[7u8; MAX_PAYLOAD_HEARSAY + 1]).unwrap_err();
}

#[test]
fn telegram_payload_is_tighter() {
    Packet::telegram(src(), dest(), 1, &[7u8; MAX_PAYLOAD_TELEGRAM]).unwrap();
    Packet::telegram(src(), dest(), 1, &[7u8; MAX_PAYLOAD_TELEGRAM + 1]).unwrap_err();
}

#[test]
fn ttl_bounds_are_enforced() {
    Packet::hearsay_with(src(), 1, b"x", 0).unwrap_err();
    Packet::hearsay_with(src(), 1, b"x", MAX_TTL).unwrap();
    Packet::hearsay_with(src(), 1, b"x", MAX_TTL + 1).unwrap_err();
}

#[test]
fn hop_never_reaches_zero() {
    let mut p = Packet::hearsay_with(src(), 1, b"x", 3).unwrap();
    assert!(p.hop());
    assert!(p.hop());
    assert_eq!(p.ttl(), 1);
    assert!(!p.hop());
    assert_eq!(p.ttl(), 1);
}

#[test]
fn dedup_key_ignores_ttl_but_not_identity() {
    let a = Packet::hearsay_with(src(), 1, b"x", 16).unwrap();
    let b = Packet::hearsay_with(src(), 1, b"x", 3).unwrap();
    assert_eq!(a.dedup_key(), b.dedup_key());

    let c = Packet::hearsay_with(src(), 2, b"x", 16).unwrap();
    assert_ne!(a.dedup_key(), c.dedup_key());

    let d = Packet::telegram(src(), dest(), 1, b"x").unwrap();
    assert_ne!(a.dedup_key(), d.dedup_key());
}

#[test]
fn larger_capacity_allows_larger_payload() {
    let p = PacketN::<211>::hearsay(src(), 1, &[9u8; 200]).unwrap();
    assert_eq!(p.payload().len(), 200);
    PacketN::<211>::hearsay(src(), 1, &[9u8; 205]).unwrap_err();
}

#[test]
fn packet_error_predicates_and_display() {
    let src = WireId::new(1);
    let err = Packet::hearsay(src, 0, &[0u8; 64]).unwrap_err();
    assert!(err.is_payload_too_long());
    assert!(!err.is_ttl_out_of_range());
    let rendered = err.message();
    assert!(rendered.contains("64 bytes"));
}

#[test]
fn ttl_error_predicates() {
    let src = WireId::new(1);
    let err = Packet::hearsay_with(src, 0, b"x", 0).unwrap_err();
    assert!(err.is_ttl_out_of_range());
    assert!(!err.is_payload_too_long());
}

#[test]
fn packet_errors_explain_themselves() {
    let err = Packet::telegram(src(), dest(), 0, &[0u8; 12]).unwrap_err();
    assert_eq!(
        sentence(&err.message()),
        "payload is 12 bytes but at most 11 bytes fit this packet shape"
    );
    let err = ExtPacket::hearsay(src(), 0, &[0u8; 205]).unwrap_err();
    assert_eq!(
        sentence(&err.message()),
        "payload is 205 bytes but at most 204 bytes fit this packet shape"
    );
    let err = Packet::telegram_with(src(), dest(), 0, &[0u8; 12], 32).unwrap_err();
    assert_eq!(
        sentence(&err.message()),
        "ttl 32 is outside the valid on-wire range 1..=31"
    );
}

#[test]
fn extended_limits_are_204_and_200() {
    assert_eq!(MAX_EXT_PAYLOAD_HEARSAY, 204);
    assert_eq!(MAX_EXT_PAYLOAD_TELEGRAM, 200);
    ExtPacket::telegram(src(), dest(), 0, &[1u8; 200]).unwrap();
    ExtPacket::telegram(src(), dest(), 0, &[1u8; 201]).unwrap_err();
}

#[test]
fn dedup_key_hashes_shape_source_sequence_addressee_and_payload() {
    let p = Packet::telegram(WireId::new(0x0102_0304), WireId::new(0x0A0B_0C0D), 0x0506, b"hey")
        .unwrap();
    let identity = [
        1, 1, 2, 3, 4, 5, 6, 0x0A, 0x0B, 0x0C, 0x0D, b'h', b'e', b'y',
    ];
    assert_eq!(p.dedup_key(), fnv64(&identity));
    let p = Packet::hearsay(WireId::new(0x0102_0304), 0x0506, b"hey").unwrap();
    assert_eq!(p.dedup_key(), fnv64(&[0, 1, 2, 3, 4, 5, 6, b'h', b'e', b'y']));
}

#[test]
fn a_hop_keeps_everything_but_the_ttl() {
    let mut p = Packet::telegram_with(src(), dest(), 77, b"abc", 31).unwrap();
    let key = p.dedup_key();
    assert!(p.hop());
    assert_eq!(p, Packet::telegram_with(src(), dest(), 77, b"abc", 30).unwrap());
    assert_eq!(p.dedup_key(), key);
    assert!(p.is_telegram());
    assert_eq!(p.dest(), Some(dest()));
    assert_eq!(p.src(), src());
    assert_eq!(p.seq(), 77);
}

#[test]
fn packets_differ_in_every_field() {
    let p = Packet::telegram_with(src(), dest(), 7, b"abc", 9).unwrap();
    assert_eq!(p, Packet::telegram_with(src(), dest(), 7, b"abc", 9).unwrap());
    assert_ne!(p, Packet::telegram_with(src(), dest(), 7, b"abc", 8).unwrap());
    assert_ne!(p, Packet::telegram_with(src(), dest(), 6, b"abc", 9).unwrap());
    assert_ne!(p, Packet::telegram_with(dest(), dest(), 7, b"abc", 9).unwrap());
    assert_ne!(p, Packet::telegram_with(src(), src(), 7, b"abc", 9).unwrap());
    assert_ne!(p, Packet::telegram_with(src(), dest(), 7, b"abd", 9).unwrap());
    assert_ne!(p, Packet::hearsay_with(src(), 7, b"abc", 9).unwrap());
}
