//! Frames inside advertisements.

use poholos::advert::{
    advert_kind, advertising_data, frame_from_advertisement, frame_from_manufacturer,
    frame_from_service_uuid, frame_from_uuid_bytes, frame_to_service_uuid, frame_to_uuid_bytes,
    frames_from_properties, frames_from_services, AdvertKind, EXT_ADV_DATA_LEN,
};
use poholos::{manufacturer_frame, ExtFrame, Frame, COMPANY_ID, MAX_EXT_FRAME_LEN, MAX_FRAME_LEN};
use std::collections::HashMap;
use uuid::Uuid;

#[test]
fn manufacturer_frame_finds_poholos_entry_after_other_structures() {
    // Flags, then a foreign manufacturer entry, then ours.
    let ad = [
        0x02, 0x01, 0x06, // Flags
        0x04, 0xFF, 0x4C, 0x00, 0x10, // manufacturer 0x004C (foreign)
        0x06, 0xFF, 0x0C, 0xF1, b'p', b'h', b'o', // manufacturer 0xF10C (ours)
    ];
    assert_eq!(manufacturer_frame(&ad), Some(&b"pho"[..]));
}

#[test]
fn manufacturer_frame_handles_empty_payload_and_zero_padding() {
    // Our company id with no payload, followed by zero padding.
    let ad = [0x03, 0xFF, 0x0C, 0xF1, 0x00, 0x00];
    assert_eq!(manufacturer_frame(&ad), Some(&[][..]));
}

#[test]
fn manufacturer_frame_rejects_foreign_and_malformed_ads() {
    // No manufacturer entry at all.
    assert_eq!(manufacturer_frame(&[0x02, 0x01, 0x06]), None);
    // Foreign company id only.
    assert_eq!(manufacturer_frame(&[0x04, 0xFF, 0x4C, 0x00, 0x10]), None);
    // Manufacturer entry too short to carry a company id.
    assert_eq!(manufacturer_frame(&[0x02, 0xFF, 0x0C]), None);
    // Structure length runs past the buffer.
    assert_eq!(manufacturer_frame(&[0x09, 0xFF, 0x0C, 0xF1, b'x']), None);
    // Empty input and pure padding.
    assert_eq!(manufacturer_frame(&[]), None);
    assert_eq!(manufacturer_frame(&[0x00, 0x00]), None);
    // Padding hides anything after it.
    assert_eq!(manufacturer_frame(&[0x00, 0x03, 0xFF, 0x0C, 0xF1]), None);
}

#[test]
fn service_uuid_roundtrip_decodes_to_original_frame() {
    let raw = [0x10, 0x00, 0x2A, 0xDE, 0xAD, 0xBE, 0xEF, b'h', b'i'];
    let frame = Frame::copy_from(&raw).expect("valid frame");
    let uuid = frame_to_service_uuid(&frame);
    // Tag byte = 0xF0 | length (9 here).
    assert_eq!(uuid.as_bytes()[0], 0xF0 | 9);
    let back = frame_from_service_uuid(&uuid).expect("decodes");
    assert_eq!(back.as_bytes(), raw);
}

#[test]
fn foreign_service_uuids_are_ignored() {
    // Bluetooth base UUID for a 16-bit service (battery, 0x180F): byte 0 is
    // 0x00, so the tag check rejects it.
    let battery = Uuid::from_u128(0x0000180f_0000_1000_8000_00805f9b34fb);
    assert!(frame_from_service_uuid(&battery).is_none());
    // Tagged byte but structurally invalid (length 1 is too short).
    let bogus = Uuid::from_bytes([0xF1, 0, 0, 0, 0, 0, 0, 0, 0, 0, 0, 0, 0, 0, 0, 0]);
    assert!(frame_from_service_uuid(&bogus).is_none());
}

#[test]
fn the_manufacturer_structure_is_found_in_documented_advertising_data() {
    let frame = [0x10, 0x00, 0x01, 0xAA, 0xBB, 0xCC, 0xDD, b'h', b'i'];
    let mut ad = vec![0x02, 0x01, 0x06];
    ad.push(12);
    ad.push(0xFF);
    ad.extend_from_slice(&COMPANY_ID.to_le_bytes());
    ad.extend_from_slice(&frame);
    assert_eq!(manufacturer_frame(&ad), Some(&frame[..]));
    let found: Frame = frame_from_advertisement(&ad).unwrap();
    assert_eq!(found.as_bytes(), frame);
}

#[test]
fn advertising_data_has_the_documented_layout() {
    let frame = ExtFrame::copy_from(&[1, 2, 3, 4, 5, 6, 7]).unwrap();
    let mut data = [0xEEu8; EXT_ADV_DATA_LEN];
    let len = advertising_data(&frame, &mut data);
    assert_eq!(&data[..len], &[10, 0xFF, 0x0C, 0xF1, 1, 2, 3, 4, 5, 6, 7]);
    assert_eq!(data[len], 0xEE);
    assert_eq!(manufacturer_frame(&data[..len]), Some(frame.as_bytes()));
}

#[test]
fn the_largest_frame_is_advertised_and_found() {
    let frame = ExtFrame::copy_from(&[0x5A; MAX_EXT_FRAME_LEN]).unwrap();
    let mut data = [0u8; EXT_ADV_DATA_LEN];
    let len = advertising_data(&frame, &mut data);
    assert_eq!(len, MAX_EXT_FRAME_LEN + 4);
    let found: ExtFrame = frame_from_advertisement(&data[..len]).unwrap();
    assert_eq!(found, frame);
    // Too large for a legacy node.
    assert_eq!(frame_from_advertisement::<MAX_FRAME_LEN>(&data[..len]), None);
}

#[test]
fn legacy_frames_fit_legacy_advertisements() {
    assert_eq!(advert_kind(22, true), AdvertKind::Legacy);
    assert_eq!(advert_kind(22, false), AdvertKind::Legacy);
    assert_eq!(advert_kind(23, false), AdvertKind::Extended);
    assert_eq!(advert_kind(23, true), AdvertKind::Coded);
    let frame = ExtFrame::copy_from(&[9; 22]).unwrap();
    let mut data = [0u8; EXT_ADV_DATA_LEN];
    assert!(advertising_data(&frame, &mut data) <= 31);
}

#[test]
fn uuid_bytes_carry_seven_to_fifteen_bytes() {
    for len in 7..=15usize {
        let bytes: Vec<u8> = (0..len as u8).collect();
        let frame = Frame::copy_from(&bytes).unwrap();
        let raw = frame_to_uuid_bytes(&frame);
        assert_eq!(raw[0], 0xF0 | len as u8);
        assert!(raw[len + 1..].iter().all(|b| *b == 0));
        assert_eq!(frame_from_uuid_bytes(&raw), Some(frame));
    }
    let mut six = [0u8; 16];
    six[0] = 0xF6;
    assert_eq!(frame_from_uuid_bytes(&six), None);
    let mut untagged = [0u8; 16];
    untagged[0] = 0xE9;
    assert_eq!(frame_from_uuid_bytes(&untagged), None);
}

#[test]
fn manufacturer_maps_are_read_by_company_id() {
    let mut data = HashMap::new();
    data.insert(0x004C, vec![1, 2, 3]);
    assert_eq!(frame_from_manufacturer::<MAX_FRAME_LEN>(&data), None);
    data.insert(COMPANY_ID, vec![4, 5, 6]);
    assert_eq!(
        frame_from_manufacturer(&data),
        Some(Frame::copy_from(&[4, 5, 6]).unwrap())
    );
    data.insert(COMPANY_ID, vec![0; 23]);
    assert_eq!(frame_from_manufacturer::<MAX_FRAME_LEN>(&data), None);
    assert_eq!(
        frame_from_manufacturer(&data),
        Some(ExtFrame::copy_from(&[0; 23]).unwrap())
    );
}

#[test]
fn properties_give_the_manufacturer_frame_and_then_the_uuid_frames() {
    let first = Frame::copy_from(&[1; 8]).unwrap();
    let second = Frame::copy_from(&[2; 7]).unwrap();
    let foreign = Uuid::from_u128(0x0000180f_0000_1000_8000_00805f9b34fb);
    let services = [
        frame_to_service_uuid(&second),
        foreign,
        frame_to_service_uuid(&first),
    ];
    assert_eq!(frames_from_services(&services), vec![second, first]);
    let mut data = HashMap::new();
    assert_eq!(frames_from_properties(&data, &services), vec![second, first]);
    data.insert(COMPANY_ID, vec![7; 9]);
    let third = Frame::copy_from(&[7; 9]).unwrap();
    assert_eq!(
        frames_from_properties(&data, &services),
        vec![third, second, first]
    );
    assert_eq!(frames_from_properties(&data, &[]), vec![third]);
    // At extended capacity the manufacturer frame may be longer.
    data.insert(COMPANY_ID, vec![8; 69]);
    assert_eq!(frames_from_properties(&data, &services), vec![second, first]);
    let widened = |bytes: &[u8]| ExtFrame::copy_from(bytes).unwrap();
    assert_eq!(
        frames_from_properties(&data, &services),
        vec![widened(&[8; 69]), widened(&[2; 7]), widened(&[1; 8])]
    );
}
