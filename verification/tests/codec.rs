//! Serialization with postcard.

use poholos::codec::{
    frame_from_postcard, frame_to_postcard_slice, from_postcard, packet_from_fields,
    to_postcard_slice, CodecError,
};
use poholos::{encode, FrameN, Packet, PacketN, WireId};

/// The sentence of an error message, without the backtrace that may follow.
fn sentence(message: &str) -> &str {
    message.lines().next().unwrap()
}

#[test]
fn postcard_round_trip() {
    let p = Packet::hearsay(WireId::new(1), 7, b"hi").unwrap();
    let mut buf = [0u8; 64];
    let used = to_postcard_slice(&p, &mut buf).unwrap();
    assert_eq!(from_postcard(used).unwrap(), p);
}

/// Packets and frames at a non-default capacity, with the empty and
/// capacity-max edge cases.
#[test]
fn postcard_round_trips_extended_capacity() {
    let payload = [0xA5u8; 200];
    let p = PacketN::<211>::hearsay(WireId::new(1), 7, &payload).unwrap();
    let mut buf = [0u8; 256];
    let used = to_postcard_slice(&p, &mut buf).unwrap();
    assert_eq!(from_postcard::<211>(used).unwrap(), p);

    // Empty and full (211 less the 7-byte header) hearsay payloads.
    for n in [0usize, 204] {
        let pl = [0x33u8; 204];
        let pe = PacketN::<211>::hearsay(WireId::new(2), 1, &pl[..n]).unwrap();
        let mut b = [0u8; 256];
        let u = to_postcard_slice(&pe, &mut b).unwrap();
        assert_eq!(from_postcard::<211>(u).unwrap(), pe);
    }

    // The frame too.
    let f = encode(&p);
    let mut fb = [0u8; 256];
    let fu = frame_to_postcard_slice(&f, &mut fb).unwrap();
    assert_eq!(frame_from_postcard::<211>(fu).unwrap(), f);
}

#[test]
fn packets_are_written_field_by_field() {
    // 300 is 0xAC 0x02 as a varint, 0x12345678 takes five bytes.
    let p = Packet::telegram_with(WireId::new(0x1234_5678), WireId::new(5), 300, b"abc", 9).unwrap();
    let mut buf = [0xEEu8; 32];
    let used = to_postcard_slice(&p, &mut buf).unwrap();
    assert_eq!(
        used,
        &[9, 0xAC, 0x02, 0xF8, 0xAC, 0xD1, 0x91, 0x01, 1, 5, 3, b'a', b'b', b'c']
    );
    assert_eq!(buf[14], 0xEE);
    let p = Packet::hearsay_with(WireId::new(127), 128, b"", 31).unwrap();
    let mut buf = [0u8; 6];
    let used = to_postcard_slice(&p, &mut buf).unwrap();
    assert_eq!(used, &[31, 0x80, 0x01, 127, 0, 0]);
}

#[test]
fn a_small_buffer_is_reported() {
    let p = Packet::hearsay(WireId::new(1), 7, b"hi").unwrap();
    let mut buf = [0u8; 7];
    to_postcard_slice(&p, &mut buf).unwrap();
    let mut buf = [0xEEu8; 6];
    let err = to_postcard_slice(&p, &mut buf).unwrap_err();
    assert!(matches!(
        err,
        CodecError::BufferFull(postcard::Error::SerializeBufferFull)
    ));
    assert_eq!(sentence(&err.message()), "the buffer is too small for the encoding");
    // No more than a prefix of the encoding was written.
    let encoding = [16, 7, 1, 0, 2, b'h', b'i'];
    let written = buf.iter().take_while(|b| **b != 0xEE).count();
    assert_eq!(&buf[..written], &encoding[..written]);
    assert!(buf[written..].iter().all(|b| *b == 0xEE));
    let frame = encode(&p);
    let mut tiny = [0u8; 4];
    assert!(matches!(
        frame_to_postcard_slice(&frame, &mut tiny).unwrap_err(),
        CodecError::BufferFull(postcard::Error::SerializeBufferFull)
    ));
}

#[test]
fn what_follows_an_encoding_is_ignored() {
    let p = Packet::telegram(WireId::new(9), WireId::new(8), 7, b"yo").unwrap();
    let mut buf = [0x77u8; 64];
    to_postcard_slice(&p, &mut buf).unwrap();
    assert_eq!(from_postcard(&buf).unwrap(), p);
}

#[test]
fn malformed_bytes_are_rejected() {
    let err = from_postcard::<22>(&[]).unwrap_err();
    assert!(matches!(
        err,
        CodecError::Malformed(postcard::Error::DeserializeUnexpectedEnd)
    ));
    assert_eq!(sentence(&err.message()), "the bytes are not a valid encoding");
    // The addressee tag is neither 0 nor 1.
    assert!(matches!(
        from_postcard::<22>(&[16, 7, 1, 2, 0]).unwrap_err(),
        CodecError::Malformed(postcard::Error::DeserializeBadOption)
    ));
    // The payload is shorter than its length says.
    assert!(matches!(
        from_postcard::<22>(&[16, 7, 1, 0, 3, b'h', b'i']).unwrap_err(),
        CodecError::Malformed(postcard::Error::DeserializeUnexpectedEnd)
    ));
    // The sequence number does not end.
    assert!(matches!(
        from_postcard::<22>(&[16, 0xFF, 0xFF, 0xFF, 0, 0, 0]).unwrap_err(),
        CodecError::Malformed(postcard::Error::DeserializeBadVarint)
    ));
    assert!(matches!(
        frame_from_postcard::<22>(&[3, 1]).unwrap_err(),
        CodecError::Malformed(postcard::Error::DeserializeUnexpectedEnd)
    ));
}

#[test]
fn fields_that_make_no_packet_are_rejected() {
    let err = from_postcard::<22>(&[0, 7, 1, 0, 0]).unwrap_err();
    let CodecError::InvalidPacket(inner) = &err else {
        panic!("expected InvalidPacket");
    };
    assert!(inner.is_ttl_out_of_range());
    assert_eq!(
        sentence(&err.message()),
        "ttl 0 is outside the valid on-wire range 1..=31"
    );
    let err = packet_from_fields::<22>(16, 1, 2, Some(3), &[0; 12]).unwrap_err();
    assert_eq!(
        sentence(&err.message()),
        "payload is 12 bytes but at most 11 bytes fit this packet shape"
    );
    assert_eq!(
        packet_from_fields::<22>(16, 1, 2, Some(3), &[0; 11]).unwrap(),
        Packet::telegram(WireId::new(2), WireId::new(3), 1, &[0; 11]).unwrap()
    );
}

#[test]
fn frames_beyond_the_capacity_are_rejected() {
    let frame = FrameN::<40>::copy_from(&[7; 23]).unwrap();
    let mut buf = [0u8; 64];
    let used = frame_to_postcard_slice(&frame, &mut buf).unwrap();
    assert_eq!(used[0], 23);
    let err = frame_from_postcard::<22>(used).unwrap_err();
    assert!(matches!(err, CodecError::OversizedFrame(_)));
    assert_eq!(
        sentence(&err.message()),
        "frame of 23 bytes exceeds the 22-byte on-air budget"
    );
}

#[test]
fn every_failure_is_one_of_postcard_too() {
    let p = Packet::hearsay(WireId::new(1), 7, b"hi").unwrap();
    assert_eq!(
        to_postcard_slice(&p, &mut []).unwrap_err().into_postcard(),
        postcard::Error::SerializeBufferFull
    );
    assert_eq!(
        from_postcard::<22>(&[16]).unwrap_err().into_postcard(),
        postcard::Error::DeserializeUnexpectedEnd
    );
    // A payload beyond the capacity, and a frame beyond it.
    let mut long = vec![16, 7, 1, 0, 23];
    long.extend([0u8; 23]);
    assert_eq!(
        from_postcard::<22>(&long).unwrap_err().into_postcard(),
        postcard::Error::SerdeDeCustom
    );
    assert_eq!(
        frame_from_postcard::<22>(&long[4..]).unwrap_err().into_postcard(),
        postcard::Error::SerdeDeCustom
    );
}
