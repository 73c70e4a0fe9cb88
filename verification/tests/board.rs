//! Boards and their displays.

use poholos::board::{
    ble_address, board_name, canned_packet, echo, frame_src, BoardNode, ButtonEvent, SeqCounter,
};
use poholos::display::{message_of, present, scroll_millis, text_of, HearsayStyle, DISPLAY_LEN};
use poholos::{
    decode, encode, ExtPacket, ExtRouteAction, Frame, NodeId, Packet, Router, WireId, MAX_FRAME_LEN,
};

#[test]
fn the_first_sequence_number_comes_from_the_clock() {
    let mut seq = SeqCounter::new();
    assert_eq!(seq.take(0xABCD_FFFF), 0xFFFF);
    assert_eq!(seq.take(5), 0);
    assert_eq!(seq.take(5), 1);
    assert_eq!(SeqCounter::default().take(0x1_0002), 2);
}

#[test]
fn button_a_sends_a_long_telegram_and_button_b_a_short_broadcast() {
    let (us, buddy) = (WireId::new(1), WireId::of_name("alice-0001"));
    let ok = canned_packet(ButtonEvent::A, us, buddy, 3);
    assert_eq!(
        ok.payload(),
        b"I am OK - long status sent over BLE 5 extended advertising"
    );
    assert_eq!(ok.dest(), Some(buddy));
    assert_eq!(encode(&ok).as_bytes()[0] >> 6, 1);
    let sos = canned_packet(ButtonEvent::B, us, buddy, 4);
    assert_eq!(sos.payload(), b"SOS - test");
    assert_eq!(sos.dest(), None);
    assert_eq!(encode(&sos).as_bytes()[0] >> 6, 0);
    assert!(encode(&sos).len() <= MAX_FRAME_LEN);
    assert_eq!(echo(ButtonEvent::A), ">ok");
    assert_eq!(echo(ButtonEvent::B), ">sos");
}

#[test]
fn a_board_originates_and_routes() {
    let buddy = WireId::new(7);
    let mut node = BoardNode::new(WireId::new(1));
    assert_eq!(node.local(), WireId::new(1));
    let frame = node.on_button(ButtonEvent::A, buddy, 40);
    let mut peer = Router::new(buddy);
    let ExtRouteAction::Deliver(packet) = peer.ingest(frame.as_bytes()).unwrap() else {
        panic!("the buddy must deliver");
    };
    assert_eq!(packet.seq(), 40);
    // Its own echo leads to nothing.
    let reaction = node.on_frame(&frame);
    assert!(reaction.show.is_none() && reaction.relay.is_none());
    // A neighbour's broadcast is shown and relayed.
    let heard = ExtPacket::hearsay(WireId::new(2), 1, b"hi").unwrap();
    let reaction = node.on_frame(&encode(&heard));
    assert_eq!(reaction.show, Some(heard));
    assert_eq!(frame_src(&reaction.relay.unwrap()), 2);
}

#[test]
fn composed_messages_are_broadcast_within_the_budget() {
    let mut node = BoardNode::new(WireId::new(1));
    let frame: Frame = node.on_message("SOS", 9).unwrap();
    let packet: Packet = decode(frame.as_bytes()).unwrap();
    assert_eq!(packet, Packet::hearsay(WireId::new(1), 9, b"SOS").unwrap());
    assert_eq!(node.on_message::<MAX_FRAME_LEN>("sixteen letters!", 9), None);
    // The refused message has used up a sequence number.
    let frame: Frame = node.on_message("A", 9).unwrap();
    let packet: Packet = decode(frame.as_bytes()).unwrap();
    assert_eq!(packet.seq(), 11);
}

#[test]
fn a_board_is_named_after_its_device_id() {
    let name = board_name(0x1234_60C6);
    assert_eq!(name.as_str(), "mb-60c6");
    assert_eq!(NodeId::parse("mb-60c6").unwrap(), name);
}

#[test]
fn addresses_are_static_random() {
    assert_eq!(
        ble_address(0x4433_2211, 0xFFFF_0655),
        [0x11, 0x22, 0x33, 0x44, 0x55, 0xC6]
    );
    assert_eq!(ble_address(0, 0xFF00)[5], 0xFF);
}

#[test]
fn frames_tell_their_source() {
    let frame = encode(&Packet::hearsay(WireId::new(0xDEAD_BEEF), 1, b"x").unwrap());
    assert_eq!(frame_src(&frame), 0xDEAD_BEEF);
    let frame = Frame::copy_from(&[0, 0, 0, 1, 2, 3, 4]).unwrap();
    assert_eq!(frame_src(&frame), 0x0102_0304);
}

#[test]
fn telegrams_chime_and_hearsay_is_marked() {
    let us = WireId::new(1);
    let telegram = ExtPacket::telegram(WireId::new(2), us, 1, b"hi").unwrap();
    let shown = present(&telegram, us, HearsayStyle::Marked);
    assert!(shown.chime);
    assert_eq!(text_of(&shown.message), "@ hi");
    let hearsay = Packet::hearsay(WireId::new(2), 1, b"hi").unwrap();
    let shown = present(&hearsay, us, HearsayStyle::Marked);
    assert!(!shown.chime);
    assert_eq!(text_of(&shown.message), "* hi");
    assert_eq!(text_of(&present(&hearsay, us, HearsayStyle::Plain).message), "hi");
    let binary = Packet::hearsay(WireId::new(2), 1, &[0xFF, 0xFE]).unwrap();
    assert_eq!(
        text_of(&present(&binary, us, HearsayStyle::Marked).message),
        "* <bin>"
    );
}

#[test]
fn the_largest_payload_scrolls_in_full() {
    let payload = [b'z'; 204];
    let packet = ExtPacket::hearsay(WireId::new(2), 1, &payload).unwrap();
    let shown = present(&packet, WireId::new(1), HearsayStyle::Marked);
    let text = text_of(&shown.message);
    assert_eq!(text.len(), DISPLAY_LEN);
    assert!(text.starts_with("* zzz"));
    // 102 two-byte letters.
    let payload = "\u{e9}".repeat(102);
    let packet = ExtPacket::hearsay(WireId::new(2), 1, payload.as_bytes()).unwrap();
    let shown = present(&packet, WireId::new(1), HearsayStyle::Marked);
    assert_eq!(text_of(&shown.message), format!("* {payload}"));
}

#[test]
fn longer_texts_are_cut_at_a_character() {
    let text = "\u{20ac}".repeat(100);
    let message = message_of(&text);
    // 68 three-byte letters make 204 bytes; a 69th does not fit 206.
    assert_eq!(text_of(&message), "\u{20ac}".repeat(68));
    assert_eq!(text_of(&message_of(">ok")), ">ok");
    assert_eq!(scroll_millis(3, 500), 1500);
}
