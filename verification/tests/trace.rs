//! Error messages and their backtraces.

use poholos::trace::explained;
use poholos::{decode, NodeId, Packet, WireId, MAX_FRAME_LEN};

#[test]
fn a_backtrace_follows_the_sentence_on_a_new_line() {
    let sentence = "it failed".to_string();
    assert_eq!(explained(sentence.clone(), None), "it failed");
    let frames = "   0: here\n   1: there".to_string();
    assert_eq!(
        explained(sentence, Some(frames)),
        "it failed\n   0: here\n   1: there"
    );
}

#[test]
fn messages_start_with_their_sentence() {
    // Whether a backtrace follows rests on the environment.
    let starts = |message: String, sentence: &str| {
        message == sentence || message.starts_with(&format!("{sentence}\n"))
    };
    let packet = Packet::hearsay_with(WireId::new(1), 0, b"x", 0).unwrap_err();
    assert!(starts(
        packet.message(),
        "ttl 0 is outside the valid on-wire range 1..=31"
    ));
    let wire = decode::<MAX_FRAME_LEN>(&[0xD0; 9]).unwrap_err();
    assert!(starts(wire.message(), "unsupported wire version 3"));
    let name = NodeId::parse("alice").unwrap_err();
    assert!(starts(
        name.message(),
        "invalid node id: expected 1-16 chars of [a-z0-9-] (no leading/trailing '-'), \
         with a 4-hex-char suffix when parsing"
    ));
}
