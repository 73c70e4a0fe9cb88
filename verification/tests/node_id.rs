//! Node identity.

use poholos::{NodeId, WireId};

/// The sentence of an error message, without the backtrace that may follow.
fn sentence(message: &str) -> &str {
    message.lines().next().unwrap()
}

#[test]
fn wire_id_is_deterministic() {
    assert_eq!(WireId::of_name("alice-3f2a"), WireId::of_name("alice-3f2a"));
    assert_ne!(WireId::of_name("alice-3f2a"), WireId::of_name("bob-9c01"));
}

#[test]
fn node_id_suffix_uses_low_16_bits_of_entropy() {
    let id = NodeId::new("alice", 0xDEAD_3F2A).unwrap();
    assert_eq!(id.as_str(), "alice-3f2a");
}

#[test]
fn node_id_round_trips_through_parse() {
    let id = NodeId::new("node-b", 0x1C2D).unwrap();
    let parsed = NodeId::parse(id.as_str()).unwrap();
    assert_eq!(id, parsed);
    assert_eq!(id.wire_id(), parsed.wire_id());
}

#[test]
fn node_id_rejects_bad_names() {
    NodeId::new("", 0).unwrap_err();
    NodeId::new("-alice", 0).unwrap_err();
    NodeId::new("alice-", 0).unwrap_err();
    NodeId::new("Alice", 0).unwrap_err();
    NodeId::new("seventeen-chars-x", 0).unwrap_err();
    NodeId::parse("alice").unwrap_err();
    NodeId::parse("alice-3F2A").unwrap_err();
    NodeId::parse("alice-3f2").unwrap_err();
}

#[test]
fn wire_ids_derive_consistently_from_display_names() {
    let bob = NodeId::new("bob", 0x9c01).unwrap();
    let typed = poholos::WireId::of_name("bob-9c01");
    assert_eq!(bob.wire_id(), typed);
}

#[test]
fn wire_id_is_the_low_half_of_the_hash() {
    // FNV-1a 64 of "foobar" is 0x85944171f73967e8.
    assert_eq!(WireId::of_name("foobar").get(), 0xf739_67e8);
    assert_eq!(WireId::of_name("foobar").to_hex(), "f73967e8");
    assert_eq!(WireId::new(0x2a).to_hex(), "0000002a");
}

#[test]
fn sixteen_characters_are_the_most() {
    let id = NodeId::new("sixteen-chars-xx", 0xF).unwrap();
    assert_eq!(id.as_str(), "sixteen-chars-xx-000f");
    assert_eq!(NodeId::parse(id.as_str()).unwrap(), id.clone());
    NodeId::parse("seventeen-chars-x-000f").unwrap_err();
}

#[test]
fn non_ascii_and_misplaced_suffixes_are_rejected() {
    NodeId::new("al\u{ef}ce", 0).unwrap_err();
    NodeId::new("two words", 0).unwrap_err();
    NodeId::parse("").unwrap_err();
    NodeId::parse("-3f2a").unwrap_err();
    NodeId::parse("alice--3f2a").unwrap_err();
    NodeId::parse("alice-3f2g").unwrap_err();
    NodeId::parse("alice-3f2ab").unwrap_err();
    NodeId::parse("\u{e9}-3f2a").unwrap_err();
    NodeId::parse("a-b-3f2a").unwrap();
}

#[test]
fn equal_names_differ_by_their_suffix() {
    let a = NodeId::new("alice", 0x0001_0001).unwrap();
    let b = NodeId::new("alice", 0x0002_0001).unwrap();
    let c = NodeId::new("alice", 0x0001_0002).unwrap();
    assert_eq!(a, b);
    assert_ne!(a, c);
}

#[test]
fn node_ids_parse_from_strings_and_errors_explain_themselves() {
    let id: NodeId = "alice-3f2a".parse().unwrap();
    assert_eq!(id.as_str(), "alice-3f2a");
    let err = "alice".parse::<NodeId>().unwrap_err();
    assert_eq!(
        sentence(&err.message()),
        "invalid node id: expected 1-16 chars of [a-z0-9-] (no leading/trailing '-'), \
         with a 4-hex-char suffix when parsing"
    );
}
