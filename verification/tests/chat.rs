//! The chat session.

use poholos::chat::{delivery_line, greeting, message_line, parse_outgoing, ChatSession, LineReaction};
use poholos::text::{is_white_space, trim};
use poholos::{decode, encode, ExtPacket, NodeId, Packet, WireId};

#[test]
fn plain_line_becomes_hearsay() {
    let mut seq = 5;
    let src = WireId::new(1);
    let p = parse_outgoing(&mut seq, src, "hello").unwrap();
    assert!(!p.is_telegram());
    assert_eq!(p.seq(), 5);
    assert_eq!(p.payload(), b"hello");
    assert_eq!(seq, 6);
}

#[test]
fn at_prefix_becomes_telegram_with_derived_dest() {
    let mut seq = 0;
    let src = WireId::new(1);
    let p = parse_outgoing(&mut seq, src, "@bob-9c01 hi").unwrap();
    assert_eq!(p.dest(), Some(WireId::of_name("bob-9c01")));
    assert_eq!(p.payload(), b"hi");
}

#[test]
fn overlong_messages_are_rejected_with_hint() {
    let mut seq = 0;
    let src = WireId::new(1);
    let err = parse_outgoing(&mut seq, src, "sixteen bytes!!!").unwrap_err();
    assert!(err.contains("15"));
    assert_eq!(seq, 0, "seq not consumed on rejection");

    let err = parse_outgoing(&mut seq, src, "@bob-9c01 twelve bytes!").unwrap_err();
    assert!(err.contains("11"));
}

#[test]
fn bare_at_line_is_a_syntax_error() {
    let mut seq = 0;
    parse_outgoing(&mut seq, WireId::new(1), "@bob-9c01").unwrap_err();
}

#[test]
fn empty_telegram_message_is_rejected() {
    let mut seq = 0;
    parse_outgoing(&mut seq, WireId::new(1), "@bob-9c01    ").unwrap_err();
    assert_eq!(seq, 0, "seq not consumed on rejection");
}

#[test]
fn hints_are_worded_exactly() {
    let mut seq = 0;
    let src = WireId::new(1);
    assert_eq!(
        parse_outgoing(&mut seq, src, "sixteen bytes!!!").unwrap_err(),
        "message is 16 bytes; broadcasts carry at most 15 bytes in this MVP \u{2014} send several shorter ones"
    );
    assert_eq!(
        parse_outgoing(&mut seq, src, "@bob-9c01 twelve byte!").unwrap_err(),
        "message is 12 bytes; telegrams carry at most 11 bytes in this MVP \u{2014} send several shorter ones"
    );
    assert_eq!(
        parse_outgoing(&mut seq, src, "@bob").unwrap_err(),
        "unicast syntax: @node-xxxx message"
    );
}

#[test]
fn limits_count_bytes_not_characters() {
    let mut seq = 0;
    let src = WireId::new(1);
    // Seven two-byte letters and one more make 16 bytes.
    parse_outgoing(&mut seq, src, "\u{e9}\u{e9}\u{e9}\u{e9}\u{e9}\u{e9}\u{e9}").unwrap();
    let err =
        parse_outgoing(&mut seq, src, "\u{e9}\u{e9}\u{e9}\u{e9}\u{e9}\u{e9}\u{e9}\u{e9}").unwrap_err();
    assert!(err.starts_with("message is 16 bytes"));
}

#[test]
fn telegrams_split_at_the_first_space_and_trim_the_message() {
    let mut seq = 9;
    let src = WireId::new(1);
    let p = parse_outgoing(&mut seq, src, "@bob-9c01 \t a  b \u{3000}").unwrap();
    assert_eq!(p.payload(), b"a  b");
    assert_eq!(p.dest(), Some(WireId::of_name("bob-9c01")));
    // An empty name is a name like any other.
    let p = parse_outgoing(&mut seq, src, "@ hi").unwrap();
    assert_eq!(p.dest(), Some(WireId::of_name("")));
    assert_eq!(seq, 11);
}

#[test]
fn sequence_numbers_wrap() {
    let mut seq = u16::MAX;
    let p = parse_outgoing(&mut seq, WireId::new(1), "x").unwrap();
    assert_eq!(p.seq(), 65535);
    assert_eq!(seq, 0);
}

#[test]
fn white_space_is_what_unicode_says() {
    for code in 0..=0x10_FFFFu32 {
        if let Some(c) = char::from_u32(code) {
            assert_eq!(is_white_space(c), c.is_whitespace(), "{code:x}");
        }
    }
    assert_eq!(trim(" \u{2003}a b\n"), "a b");
    assert_eq!(trim(" \t "), "");
    assert_eq!(trim(""), "");
}

#[test]
fn lines_lead_to_sends_hints_or_the_end() {
    let mut session = ChatSession::new(WireId::new(1), 7);
    assert_eq!(session.local(), WireId::new(1));
    assert!(matches!(session.on_line("   "), LineReaction::Idle));
    assert!(matches!(session.on_line(" /quit "), LineReaction::Quit));
    assert!(matches!(session.on_line("@bob"), LineReaction::Reject(_)));
    let LineReaction::Send(frame) = session.on_line("  hello ") else {
        panic!("expected a frame");
    };
    let sent: Packet = decode(frame.as_bytes()).unwrap();
    assert_eq!(sent, Packet::hearsay(WireId::new(1), 7, b"hello").unwrap());
    let LineReaction::Send(frame) = session.on_line("again") else {
        panic!("expected a frame");
    };
    let sent: Packet = decode(frame.as_bytes()).unwrap();
    assert_eq!(sent.seq(), 8);
    // The echo of what was sent is neither shown nor relayed.
    let echo = session.on_frame(&frame);
    assert!(echo.show.is_none() && echo.relay.is_none());
}

#[test]
fn frames_are_shown_once_and_relayed_one_hop_on() {
    let mut session = ChatSession::new(WireId::new(1), 0);
    let packet = Packet::hearsay_with(WireId::new(2), 5, b"hey", 9).unwrap();
    let reaction = session.on_frame(&encode(&packet));
    assert_eq!(reaction.show, Some(packet));
    let relayed: Packet = decode(reaction.relay.unwrap().as_bytes()).unwrap();
    assert_eq!(relayed.ttl(), 8);
    let again = session.on_frame(&encode(&relayed));
    assert!(again.show.is_none() && again.relay.is_none());
    // A telegram for someone else is relayed and not shown.
    let other = Packet::telegram(WireId::new(2), WireId::new(3), 6, b"psst").unwrap();
    let reaction = session.on_frame(&encode(&other));
    assert!(reaction.show.is_none() && reaction.relay.is_some());
    // One for us is shown and not relayed.
    let ours = Packet::telegram(WireId::new(2), WireId::new(1), 7, b"psst").unwrap();
    let reaction = session.on_frame(&encode(&ours));
    assert_eq!(reaction.show, Some(ours));
    assert!(reaction.relay.is_none());
    // A session of extended capacity shows a long status too.
    let status = [b'x'; 58];
    let long = ExtPacket::telegram(WireId::new(2), WireId::new(1), 8, &status).unwrap();
    let reaction = session.on_frame(&encode(&long));
    assert_eq!(reaction.show, Some(long));
    assert!(reaction.relay.is_none());
    // Noise leads to nothing.
    let noise = poholos::Frame::copy_from(&[0; 9]).unwrap();
    let reaction = session.on_frame(&noise);
    assert!(reaction.show.is_none() && reaction.relay.is_none());
}

#[test]
fn deliveries_are_written_in_one_line() {
    let us = WireId::new(1);
    let now = "2026-06-11 14:32:07";
    let p = Packet::hearsay(WireId::new(0xABCD), 1, b"SOS - test").unwrap();
    assert_eq!(
        delivery_line(now, &p, us),
        "2026-06-11 14:32:07 [0000abcd \u{2192} all] SOS - test"
    );
    let p = Packet::telegram(WireId::new(0xABCD), us, 1, "h\u{e9}".as_bytes()).unwrap();
    assert_eq!(
        delivery_line(now, &p, us),
        "2026-06-11 14:32:07 [0000abcd \u{2192} you] h\u{e9}"
    );
    // A long status telegram is written in full.
    let status = "I am OK - long status sent over BLE 5 extended advertising";
    let p = ExtPacket::telegram(WireId::new(0xABCD), us, 1, status.as_bytes()).unwrap();
    assert_eq!(
        delivery_line("2026-06-11 14:32:09", &p, us),
        format!("2026-06-11 14:32:09 [0000abcd \u{2192} you] {status}")
    );
    // Bytes that are no text are replaced.
    let p = Packet::hearsay(WireId::new(2), 1, &[b'a', 0xFF, b'b']).unwrap();
    assert_eq!(
        delivery_line("t", &p, us),
        "t [00000002 \u{2192} all] a\u{FFFD}b"
    );
    assert_eq!(
        message_line("t", WireId::new(2), true, "x"),
        "t [00000002 \u{2192} you] x"
    );
}

#[test]
fn the_greeting_names_the_node() {
    let node = NodeId::parse("alice-3f2a").unwrap();
    assert_eq!(
        greeting(&node),
        format!("you are alice-3f2a (wire id {})", node.wire_id().to_hex())
    );
}
