//! Frames inside advertisements: the channels that carry them on air.
//!
//! A frame travels in one of two shapes:
//!
//! 1. **Manufacturer data** of [`COMPANY_ID`], in an AD structure
//!    `[len, 0xFF, company id (little-endian), frame...]`.
//! 2. **A 128-bit service UUID**, for peripherals that cannot advertise
//!    foreign manufacturer data: byte 0 is `0xF0 | len`, the frame follows,
//!    and the rest is zero.

use crate::bytes::{put, tail};
use crate::packet;
use crate::packet::{PacketView, MAX_CAPACITY};
use crate::wire;
use crate::wire::{ExtFrame, Frame, FrameN, HEADER_LEN_HEARSAY, MAX_EXT_FRAME_LEN, MAX_FRAME_LEN};
use std::collections::HashMap;
use trouble_host::advertise::AdStructure;
use uuid::Uuid;
use vstd::prelude::*;

verus! {

/// Bluetooth manufacturer-specific-data company identifier.
///
/// Far above the assigned company id range, and not `0xFFFF`, which BlueZ
/// silently drops. Transports place the encoded frame in the manufacturer
/// data of this company id; scanners filter on it.
pub const COMPANY_ID: u16 = 0xF10C;

/// The AD type tag for manufacturer-specific data.
pub const AD_TYPE_MANUFACTURER: u8 = 0xFF;

/// Bytes that precede the frame in a manufacturer-specific AD entry: the AD
/// type and the 2-byte company id.
pub const MANUFACTURER_HEADER_LEN: usize = 1 + 2;

/// Whether an AD entry (type byte and data) is manufacturer data of
/// [`COMPANY_ID`].
pub open spec fn is_ours(entry: Seq<u8>) -> bool {
    &&& entry.len() >= MANUFACTURER_HEADER_LEN
    &&& entry[0] == AD_TYPE_MANUFACTURER
    &&& entry[1] + 256 * entry[2] == COMPANY_ID
}

/// The frame bytes in advertising data: the payload of the first entry that
/// is ours, if the structures up to it are well formed.
///
/// Advertising data is a sequence of structures, each a length byte and an
/// entry of that length. A length of zero marks trailing padding.
pub open spec fn advertised(ad: Seq<u8>) -> Option<Seq<u8>>
    decreases ad.len(),
{
    if ad.len() == 0 || ad[0] == 0 || ad[0] >= ad.len() {
        None
    } else {
        let entry = ad.subrange(1, 1 + ad[0]);
        if is_ours(entry) {
            Some(entry.skip(MANUFACTURER_HEADER_LEN as int))
        } else {
            advertised(ad.skip(1 + ad[0]))
        }
    }
}

/// Extracts the frame bytes from raw BLE advertising data.
///
/// Walks the AD structures and returns the payload of the first
/// manufacturer-specific entry carrying [`COMPANY_ID`]. Returns `None` when no
/// such entry exists or the structures before it are malformed. Pass the
/// result to [`FrameN::copy_from`] or [`decode`](crate::decode).
#[must_use]
pub fn manufacturer_frame(ad: &[u8]) -> (found: Option<&[u8]>)
    ensures
        found is Some <==> advertised(ad@) is Some,
        found matches Some(frame) ==> advertised(ad@) == Some(frame@),
{
    let mut rest = ad;
    while rest.len() > 0
        invariant
            advertised(rest@) == advertised(ad@),
        decreases rest@.len(),
    {
        let len: usize = rest[0] as usize;
        if len == 0 || len >= rest.len() {
            return None;
        }
        let entry = vstd::slice::slice_subrange(rest, 1, 1 + len);
        if entry[0] == AD_TYPE_MANUFACTURER && entry.len() >= MANUFACTURER_HEADER_LEN && entry[1]
            as u16 + 256 * entry[2] as u16 == COMPANY_ID {
            return Some(tail(entry, MANUFACTURER_HEADER_LEN));
        }
        rest = tail(rest, 1 + len);
    }
    None
}

/// The AD structure that carries `payload` as manufacturer data.
pub open spec fn manufacturer_structure(company: u16, payload: Seq<u8>) -> Seq<u8> {
    seq![
        (payload.len() + MANUFACTURER_HEADER_LEN) as u8,
        AD_TYPE_MANUFACTURER,
        (company % 256) as u8,
        (company / 256) as u8,
    ] + payload
}

/// Law: a frame put into manufacturer data is found there again, whatever
/// follows it.
pub proof fn an_advertised_frame_is_found(frame: Seq<u8>, rest: Seq<u8>)
    requires
        frame.len() + MANUFACTURER_HEADER_LEN <= 255,
    ensures
        advertised(manufacturer_structure(COMPANY_ID, frame) + rest) == Some(frame),
{
    let ad = manufacturer_structure(COMPANY_ID, frame) + rest;
    let entry = ad.subrange(1, 1 + ad[0]);
    assert(entry.skip(MANUFACTURER_HEADER_LEN as int) =~= frame);
}

/// Law: structures that are not ours are skipped, whatever they hold.
pub proof fn foreign_structures_are_skipped(entry: Seq<u8>, rest: Seq<u8>)
    requires
        1 <= entry.len() <= 255,
        !is_ours(entry),
    ensures
        advertised(seq![entry.len() as u8] + entry + rest) == advertised(rest),
{
    let ad = seq![entry.len() as u8] + entry + rest;
    assert(ad.subrange(1, 1 + ad[0]) =~= entry);
    assert(ad.skip(1 + ad[0]) =~= rest);
}

/// `AdStructure::encode_slice` on one `AdStructure::ManufacturerSpecificData`:
/// claims that, where the structure fits `dest`, its bytes are written at the
/// start of `dest`, the rest of `dest` is left as it was, and the number of
/// bytes written is returned. The length byte holds payloads of at most 252
/// bytes.
#[verifier::external_body]
fn encode_manufacturer_structure<const N: usize>(
    company: u16,
    payload: &[u8],
    dest: &mut [u8; N],
) -> (written: Option<usize>)
    requires
        payload@.len() + MANUFACTURER_HEADER_LEN <= 255,
        payload@.len() + MANUFACTURER_HEADER_LEN + 1 <= N,
    ensures
        written == Some((payload@.len() + MANUFACTURER_HEADER_LEN + 1) as usize),
        final(dest)@ == manufacturer_structure(company, payload@) + old(dest)@.skip(
            payload@.len() + MANUFACTURER_HEADER_LEN + 1,
        ),
{
    let structure = AdStructure::ManufacturerSpecificData { company_identifier: company, payload };
    AdStructure::encode_slice(&[structure], &mut dest[..]).ok()
}

/// Longest advertising data that a legacy advertisement holds.
pub const LEGACY_ADV_DATA_LEN: usize = 31;

/// Buffer length for the advertising data of the largest frame.
pub const EXT_ADV_DATA_LEN: usize = MAX_EXT_FRAME_LEN + 8;

/// The kind of advertisement that carries a frame.
#[derive(Copy, Clone, PartialEq, Eq, Structural, Debug)]
pub enum AdvertKind {
    /// A legacy advertisement, which every node hears.
    Legacy,
    /// An extended advertisement, for frames beyond the legacy budget.
    Extended,
    /// An extended advertisement on the long-range Coded PHY.
    Coded,
}

/// The kind of advertisement for a frame of `len` bytes on a radio that may
/// support the Coded PHY.
pub open spec fn kind_of(len: nat, coded: bool) -> AdvertKind {
    if len <= MAX_FRAME_LEN {
        AdvertKind::Legacy
    } else if coded {
        AdvertKind::Coded
    } else {
        AdvertKind::Extended
    }
}

/// Tells which kind of advertisement carries a frame of `len` bytes: legacy
/// while it fits the legacy budget, so that every node can hear it, and long
/// range for the others where the radio supports it.
#[must_use]
pub fn advert_kind(len: usize, coded: bool) -> (kind: AdvertKind)
    ensures
        kind == kind_of(len as nat, coded),
{
    if len <= MAX_FRAME_LEN {
        AdvertKind::Legacy
    } else if coded {
        AdvertKind::Coded
    } else {
        AdvertKind::Extended
    }
}

/// Law: exactly the frames of the extended wire version leave the legacy
/// advertisements.
pub proof fn extended_frames_need_extended_advertising(packet: PacketView, cap: nat, coded: bool)
    requires
        packet::is_valid(packet, cap),
    ensures
        kind_of(wire::encoded(packet).len(), coded) == AdvertKind::Legacy <==> wire::version_of(
            packet,
        ) == wire::WIRE_VERSION,
{
    wire::every_frame_is_sound(packet, cap);
}

/// Writes the advertising data of `frame` at the start of `adv_data` and
/// returns its length. The data of a legacy frame fits a legacy advertisement.
pub fn advertising_data(frame: &ExtFrame, adv_data: &mut [u8; EXT_ADV_DATA_LEN]) -> (len: usize)
    ensures
        len == frame@.len() + MANUFACTURER_HEADER_LEN + 1,
        len <= EXT_ADV_DATA_LEN,
        final(adv_data)@.take(len as int) == manufacturer_structure(COMPANY_ID, frame@),
        advertised(final(adv_data)@.take(len as int)) == Some(frame@),
        frame@.len() <= MAX_FRAME_LEN ==> len <= LEGACY_ADV_DATA_LEN,
{
    let payload = frame.as_bytes();
    let written = encode_manufacturer_structure(COMPANY_ID, payload, adv_data);
    proof {
        let len = frame@.len() + MANUFACTURER_HEADER_LEN + 1;
        assert(adv_data@.take(len as int) =~= manufacturer_structure(COMPANY_ID, frame@));
        an_advertised_frame_is_found(frame@, Seq::empty());
        assert(manufacturer_structure(COMPANY_ID, frame@) + Seq::<u8>::empty()
            =~= manufacturer_structure(COMPANY_ID, frame@));
    }
    match written {
        Some(len) => len,
        None => vstd::pervasive::unreached(),
    }
}

/// The frame that received advertising data stands for at capacity `cap`.
pub open spec fn frame_in_advertisement(ad: Seq<u8>, cap: nat) -> Option<Seq<u8>> {
    match advertised(ad) {
        Some(frame) => if frame.len() <= cap {
            Some(frame)
        } else {
            None
        },
        None => None,
    }
}

/// Takes the frame out of received advertising data, if there is one that
/// fits the capacity `CAP`.
#[must_use]
pub fn frame_from_advertisement<const CAP: usize>(ad: &[u8]) -> (found: Option<FrameN<CAP>>)
    requires
        CAP <= MAX_CAPACITY,
    ensures
        found is Some <==> frame_in_advertisement(ad@, CAP as nat) is Some,
        found matches Some(frame) ==> frame_in_advertisement(ad@, CAP as nat) == Some(frame@),
{
    match manufacturer_frame(ad) {
        Some(bytes) => match FrameN::copy_from(bytes) {
            Ok(frame) => Some(frame),
            Err(_) => None,
        },
        None => None,
    }
}

/// The frame of capacity `cap` in a manufacturer-data map keyed by company id.
pub open spec fn frame_in_manufacturer_map(data: Map<u16, Vec<u8>>, cap: nat) -> Option<Seq<u8>> {
    if data.contains_key(COMPANY_ID) && data[COMPANY_ID]@.len() <= cap {
        Some(data[COMPANY_ID]@)
    } else {
        None
    }
}

/// Takes the frame out of a manufacturer-data map keyed by company id, if
/// there is one that fits the capacity `CAP`.
#[must_use]
pub fn frame_from_manufacturer<const CAP: usize>(data: &HashMap<u16, Vec<u8>>) -> (found: Option<
    FrameN<CAP>,
>)
    requires
        CAP <= MAX_CAPACITY,
    ensures
        found is Some <==> frame_in_manufacturer_map(data@, CAP as nat) is Some,
        found matches Some(frame) ==> frame_in_manufacturer_map(data@, CAP as nat) == Some(frame@),
{
    broadcast use vstd::std_specs::hash::group_hash_axioms;

    match data.get(&COMPANY_ID) {
        Some(bytes) => match FrameN::copy_from(bytes.as_slice()) {
            Ok(frame) => Some(frame),
            Err(_) => None,
        },
        None => None,
    }
}

/// High nibble marking a frame packed into a service UUID. The low nibble
/// carries the frame length.
pub const UUID_TAG: u8 = 0xF0;

/// Largest frame that a service UUID can carry: 16 bytes, less the tag.
pub const MAX_UUID_FRAME: usize = 15;

/// Smallest valid on-wire frame: a hearsay with an empty payload.
pub const MIN_FRAME: usize = HEADER_LEN_HEARSAY;

/// A `uuid::Uuid`, as an opaque type.
#[verifier::external_type_specification]
#[verifier::external_body]
pub struct ExUuid(uuid::Uuid);

/// The sixteen bytes that a UUID holds.
pub uninterp spec fn uuid_bytes(uuid: Uuid) -> Seq<u8>;

/// `Uuid::from_bytes`: claims that the UUID holds the given bytes.
pub assume_specification[ uuid::Uuid::from_bytes ](raw: [u8; 16]) -> (made: uuid::Uuid)
    ensures
        uuid_bytes(made) == raw@,
;

/// `Uuid::as_bytes`: claims that the result is the bytes that the UUID holds.
pub assume_specification[ uuid::Uuid::as_bytes ](id: &uuid::Uuid) -> (raw: &[u8; 16])
    ensures
        raw@ == uuid_bytes(*id),
;

/// The UUID bytes that carry `frame`.
pub open spec fn uuid_of_frame(frame: Seq<u8>) -> Seq<u8> {
    seq![(UUID_TAG + frame.len()) as u8] + frame + Seq::new(
        (MAX_UUID_FRAME - frame.len()) as nat,
        |i: int| 0u8,
    )
}

/// The frame that UUID bytes carry, if they are tagged and give a length that
/// a frame can have.
pub open spec fn frame_in_uuid(raw: Seq<u8>) -> Option<Seq<u8>> {
    let len = raw[0] % 16;
    if raw[0] / 16 == UUID_TAG / 16 && MIN_FRAME <= len <= MAX_UUID_FRAME {
        Some(raw.subrange(1, 1 + len))
    } else {
        None
    }
}

/// Packs a frame into the bytes of a 128-bit service UUID: byte 0 is
/// `0xF0 | len`, then come the frame bytes, and the rest is zero padding.
#[must_use]
pub fn frame_to_uuid_bytes<const CAP: usize>(frame: &FrameN<CAP>) -> (raw: [u8; 16])
    requires
        frame@.len() <= MAX_UUID_FRAME,
    ensures
        raw@ == uuid_of_frame(frame@),
{
    let bytes = frame.as_bytes();
    let len: u8 = bytes.len() as u8;
    let mut raw = [0u8;16];
    assert(0xF0u8 | len == 0xF0 + len) by (bit_vector)
        requires
            len <= 15,
    ;
    raw[0] = UUID_TAG | len;
    put(&mut raw, 1, bytes);
    assert(raw@ =~= uuid_of_frame(frame@));
    raw
}

/// Decodes the bytes of a tagged service UUID into a frame, if it is one.
#[must_use]
pub fn frame_from_uuid_bytes(raw: &[u8; 16]) -> (found: Option<Frame>)
    ensures
        found is Some <==> frame_in_uuid(raw@) is Some,
        found matches Some(frame) ==> frame_in_uuid(raw@) == Some(frame@),
        found matches Some(frame) ==> MIN_FRAME <= frame@.len() <= MAX_UUID_FRAME,
{
    let first: u8 = raw[0];
    assert((first & 0xF0 == 0xF0) == (first / 16 == 15)) by (bit_vector);
    assert(first & 0x0F == first % 16) by (bit_vector);
    if first & 0xF0 != UUID_TAG {
        return None;
    }
    let len: usize = (first & 0x0F) as usize;
    if len < MIN_FRAME || len > MAX_UUID_FRAME {
        return None;
    }
    match FrameN::copy_from(vstd::slice::slice_subrange(raw.as_slice(), 1, 1 + len)) {
        Ok(frame) => Some(frame),
        Err(_) => None,
    }
}

/// Packs a frame into a 128-bit service UUID.
#[must_use]
pub fn frame_to_service_uuid<const CAP: usize>(frame: &FrameN<CAP>) -> (uuid: Uuid)
    requires
        frame@.len() <= MAX_UUID_FRAME,
    ensures
        uuid_bytes(uuid) == uuid_of_frame(frame@),
{
    Uuid::from_bytes(frame_to_uuid_bytes(frame))
}

/// Decodes a tagged service UUID into a frame, if it is one.
///
/// Foreign UUIDs fail the tag check or the length check and return `None`.
#[must_use]
pub fn frame_from_service_uuid(uuid: &Uuid) -> (found: Option<Frame>)
    ensures
        found is Some <==> frame_in_uuid(uuid_bytes(*uuid)) is Some,
        found matches Some(frame) ==> frame_in_uuid(uuid_bytes(*uuid)) == Some(frame@),
        found matches Some(frame) ==> MIN_FRAME <= frame@.len() <= MAX_UUID_FRAME,
{
    frame_from_uuid_bytes(uuid.as_bytes())
}

/// Law: a frame that was packed into a UUID is what the UUID decodes to.
pub proof fn a_frame_in_a_uuid_is_found(frame: Seq<u8>)
    requires
        MIN_FRAME <= frame.len() <= MAX_UUID_FRAME,
    ensures
        uuid_of_frame(frame).len() == 16,
        frame_in_uuid(uuid_of_frame(frame)) == Some(frame),
{
    let raw = uuid_of_frame(frame);
    assert(raw.subrange(1, 1 + frame.len() as int) =~= frame);
}

/// The frames that a list of service UUIDs carries, in order.
pub open spec fn frames_in_services(services: Seq<Uuid>) -> Seq<Seq<u8>>
    decreases services.len(),
{
    if services.len() == 0 {
        Seq::empty()
    } else {
        let earlier = frames_in_services(services.drop_last());
        match frame_in_uuid(uuid_bytes(services.last())) {
            Some(frame) => earlier.push(frame),
            None => earlier,
        }
    }
}

/// The bytes of each frame.
pub open spec fn contents<const CAP: usize>(frames: Seq<FrameN<CAP>>) -> Seq<Seq<u8>> {
    frames.map_values(|frame: FrameN<CAP>| frame@)
}

/// Takes the frames out of a list of advertised service UUIDs, in order.
#[must_use]
pub fn frames_from_services<const CAP: usize>(services: &[Uuid]) -> (frames: Vec<FrameN<CAP>>)
    requires
        MAX_UUID_FRAME <= CAP <= MAX_CAPACITY,
    ensures
        contents(frames@) == frames_in_services(services@),
{
    let mut frames: Vec<FrameN<CAP>> = Vec::new();
    let mut i: usize = 0;
    assert(contents(frames@) =~= frames_in_services(services@.take(0)));
    while i < services.len()
        invariant
            MAX_UUID_FRAME <= CAP <= MAX_CAPACITY,
            i <= services@.len(),
            contents(frames@) == frames_in_services(services@.take(i as int)),
        decreases services@.len() - i,
    {
        assert(services@.take(i + 1).drop_last() =~= services@.take(i as int));
        let ghost before = frames@;
        if let Some(found) = frame_from_service_uuid(&services[i]) {
            if let Ok(frame) = FrameN::copy_from(found.as_bytes()) {
                frames.push(frame);
                assert(contents(frames@) =~= contents(before).push(frame@));
            }
        }
        i += 1;
    }
    assert(services@.take(i as int) =~= services@);
    frames
}

/// The frames in a peripheral's properties.
pub open spec fn frames_in_properties(
    data: Map<u16, Vec<u8>>,
    services: Seq<Uuid>,
    cap: nat,
) -> Seq<Seq<u8>> {
    (match frame_in_manufacturer_map(data, cap) {
        Some(frame) => seq![frame],
        None => Seq::<Seq<u8>>::empty(),
    }) + frames_in_services(services)
}

/// Law: a peripheral's properties give the bytes under our company id first,
/// if they fit, and after them all that the service UUIDs give.
pub proof fn properties_give_all_their_frames(
    data: Map<u16, Vec<u8>>,
    services: Seq<Uuid>,
    cap: nat,
)
    ensures
        ({
            let frames = frames_in_properties(data, services, cap);
            if data.dom().contains(0xF10C) && data[0xF10C]@.len() <= cap {
                frames.len() > 0 && frames[0] == data[0xF10C]@ && frames.skip(1)
                    == frames_in_services(services)
            } else {
                frames == frames_in_services(services)
            }
        }),
{
    let frames = frames_in_properties(data, services, cap);
    if data.dom().contains(0xF10C) && data[0xF10C]@.len() <= cap {
        assert(frames.skip(1) =~= frames_in_services(services));
    } else {
        assert(frames =~= frames_in_services(services));
    }
}

/// Takes the frames out of a peripheral's properties: the one in its
/// manufacturer data first, then those in its service UUIDs.
#[must_use]
pub fn frames_from_properties<const CAP: usize>(
    data: &HashMap<u16, Vec<u8>>,
    services: &[Uuid],
) -> (frames: Vec<FrameN<CAP>>)
    requires
        MAX_UUID_FRAME <= CAP <= MAX_CAPACITY,
    ensures
        contents(frames@) == (match frame_in_manufacturer_map(data@, CAP as nat) {
            Some(frame) => seq![frame],
            None => Seq::<Seq<u8>>::empty(),
        }) + frames_in_services(services@),
        contents(frames@) == frames_in_properties(data@, services@, CAP as nat),
{
    let mut frames: Vec<FrameN<CAP>> = Vec::new();
    if let Some(frame) = frame_from_manufacturer(data) {
        frames.push(frame);
    }
    let mut others = frames_from_services(services);
    let ghost first = contents(frames@);
    let ghost second = contents(others@);
    frames.append(&mut others);
    assert(contents(frames@) =~= first + second);
    assert(first =~= (match frame_in_manufacturer_map(data@, CAP as nat) {
        Some(frame) => seq![frame],
        None => Seq::<Seq<u8>>::empty(),
    }));
    frames
}

/// Law: the AD structure of a payload is its length, the tag `0xFF`, the
/// company id with the less significant byte first, and the payload.
pub proof fn a_structure_holds_its_payload(company: u16, payload: Seq<u8>)
    requires
        payload.len() <= 252,
    ensures
        ({
            let ad = manufacturer_structure(company, payload);
            &&& ad.len() == payload.len() + 4
            &&& ad[0] == payload.len() + 3
            &&& ad[1] == 0xFF
            &&& ad[2] + 256 * ad[3] == company
            &&& ad.skip(4) == payload
        }),
{
    assert(manufacturer_structure(company, payload).skip(4) =~= payload);
}

/// Law: what is found in advertising data stands there, in a structure of our
/// company id. Data that starts with padding or with a structure that is cut
/// off holds nothing.
pub proof fn what_is_found_was_advertised(ad: Seq<u8>)
    ensures
        advertised(ad) matches Some(frame) ==> exists|at: int|
            {
                &&& 0 <= at && at + 4 + frame.len() <= ad.len()
                &&& #[trigger] ad[at] == frame.len() + 3
                &&& ad[at + 1] == 0xFF
                &&& ad[at + 2] + 256 * ad[at + 3] == 0xF10C
                &&& ad.subrange(at + 4, at + 4 + frame.len() as int) == frame
            },
        ad.len() == 0 || ad[0] == 0 || ad[0] >= ad.len() ==> advertised(ad) is None,
    decreases ad.len(),
{
    if !(ad.len() == 0 || ad[0] == 0 || ad[0] >= ad.len()) {
        let entry = ad.subrange(1, 1 + ad[0]);
        if is_ours(entry) {
            let frame = entry.skip(3);
            assert(advertised(ad) == Some(frame));
            assert(ad.subrange(4, 4 + frame.len() as int) =~= frame);
            assert(ad[0] == frame.len() + 3);
            assert(entry[0] == ad[1] && entry[1] == ad[2] && entry[2] == ad[3]);
        } else {
            let rest = ad.skip(1 + ad[0]);
            what_is_found_was_advertised(rest);
            if advertised(rest) is Some {
                let frame = advertised(rest)->0;
                let at = choose|at: int|
                    {
                        &&& 0 <= at && at + 4 + frame.len() <= rest.len()
                        &&& #[trigger] rest[at] == frame.len() + 3
                        &&& rest[at + 1] == 0xFF
                        &&& rest[at + 2] + 256 * rest[at + 3] == 0xF10C
                        &&& rest.subrange(at + 4, at + 4 + frame.len() as int) == frame
                    };
                let there = at + 1 + ad[0];
                assert(ad[there] == rest[at]);
                assert(ad.subrange(there + 4, there + 4 + frame.len() as int) =~= frame);
            }
        }
    }
}

/// Law: a frame is taken out of advertising data exactly if it is there and
/// fits the capacity.
pub proof fn a_frame_is_taken_if_it_fits(frame: Seq<u8>, rest: Seq<u8>, cap: nat)
    requires
        frame.len() <= 252,
    ensures
        ({
            let ad = manufacturer_structure(COMPANY_ID, frame) + rest;
            frame_in_advertisement(ad, cap) == (if frame.len() <= cap {
                Some(frame)
            } else {
                None
            })
        }),
{
    an_advertised_frame_is_found(frame, rest);
}

/// Law: a manufacturer-data map gives the bytes under our company id, if they
/// are there and fit the capacity, and nothing of other companies.
pub proof fn a_map_gives_our_bytes(data: Map<u16, Vec<u8>>, cap: nat, frame: Seq<u8>)
    ensures
        frame_in_manufacturer_map(data, cap) == Some(frame) <==> data.dom().contains(0xF10C)
            && data[0xF10C]@ == frame && frame.len() <= cap,
{
}

/// Law: what a UUID decodes to stands in its bytes behind a tag that gives its
/// length, and every tagged UUID with a length that a frame can have decodes.
pub proof fn a_uuid_holds_its_frame(raw: Seq<u8>)
    requires
        raw.len() == 16,
    ensures
        frame_in_uuid(raw) is Some <==> 0xF7 <= raw[0] <= 0xFF,
        frame_in_uuid(raw) matches Some(frame) ==> raw[0] == 0xF0 + frame.len() && raw.subrange(
            1,
            1 + frame.len() as int,
        ) == frame,
{
}

/// Law: the bytes that carry a frame are its tag, the frame, and zeros.
pub proof fn a_packed_frame_is_padded_with_zeros(frame: Seq<u8>, i: int)
    requires
        frame.len() <= 15,
    ensures
        uuid_of_frame(frame).len() == 16,
        uuid_of_frame(frame)[0] == 0xF0 + frame.len(),
        1 <= i <= frame.len() ==> uuid_of_frame(frame)[i] == frame[i - 1],
        frame.len() < i < 16 ==> uuid_of_frame(frame)[i] == 0,
{
}

/// Law: a list of service UUIDs gives the frame of each that holds one, and
/// those of its parts in order.
pub proof fn services_give_their_frames_in_order(first: Seq<Uuid>, second: Seq<Uuid>, uuid: Uuid)
    ensures
        frames_in_services(first + second) == frames_in_services(first) + frames_in_services(
            second,
        ),
        frames_in_services(seq![uuid]) == (match frame_in_uuid(uuid_bytes(uuid)) {
            Some(frame) => seq![frame],
            None => Seq::<Seq<u8>>::empty(),
        }),
    decreases second.len(),
{
    let one = seq![uuid];
    assert(one.drop_last() =~= Seq::<Uuid>::empty());
    assert(frames_in_services(one.drop_last()) =~= Seq::<Seq<u8>>::empty());
    assert(frames_in_services(one) =~= (match frame_in_uuid(uuid_bytes(uuid)) {
        Some(frame) => seq![frame],
        None => Seq::<Seq<u8>>::empty(),
    }));
    if second.len() == 0 {
        assert(first + second =~= first);
        assert(frames_in_services(first) + frames_in_services(second) =~= frames_in_services(
            first,
        ));
    } else {
        services_give_their_frames_in_order(first, second.drop_last(), uuid);
        assert((first + second).drop_last() =~= first + second.drop_last());
        assert((first + second).last() == second.last());
        assert(frames_in_services(first + second) =~= frames_in_services(first)
            + frames_in_services(second));
    }
}

/// Law: frames of at most 22 bytes go out as legacy advertisements, and longer
/// ones as extended ones, long range exactly where the radio can.
pub proof fn length_decides_the_advertisement(len: nat, coded: bool)
    ensures
        kind_of(len, coded) == AdvertKind::Legacy <==> len <= 22,
        kind_of(len, coded) == AdvertKind::Coded <==> len > 22 && coded,
        kind_of(len, coded) == AdvertKind::Extended <==> len > 22 && !coded,
{
}

} // verus!
