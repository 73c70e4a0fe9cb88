//! Boards: mesh nodes that run as firmware.
//!
//! The decisions of a board, without its peripherals: who it is on air, what
//! its buttons send, and what it does with received frames.

use crate::bytes;
use crate::bytes::read_be32;
use crate::chat;
use crate::node_id;
use crate::node_id::{NodeId, WireId};
use crate::packet;
use crate::packet::{ExtPacket, PacketN, PacketView, DEFAULT_TTL, MAX_CAPACITY};
use crate::router;
use crate::router::{Reaction, Router, RouterView};
use crate::seen;
use crate::text;
use crate::wire;
use crate::wire::{
    ExtFrame, FrameN, HEADER_LEN_HEARSAY, HEADER_LEN_TELEGRAM, MAX_EXT_FRAME_LEN, MAX_FRAME_LEN,
    WIRE_VERSION, WIRE_VERSION_EXT,
};
use vstd::prelude::*;
use vstd::utf8;

verus! {

/// Hands out sequence numbers.
///
/// The first one must be unpredictable, so that a rebooted node dodges its old
/// packets in peers' seen caches; the uptime tick of the first send stands in
/// for a random number. Its view is the next number, once there is one.
#[derive(Debug)]
pub struct SeqCounter {
    next: Option<u16>,
}

impl View for SeqCounter {
    type V = Option<u16>;

    closed spec fn view(&self) -> Option<u16> {
        self.next
    }
}

/// The number that a counter hands out at uptime tick `ticks`.
pub open spec fn handed_out(next: Option<u16>, ticks: u64) -> u16 {
    match next {
        Some(seq) => seq,
        None => (ticks % 0x1_0000) as u16,
    }
}

/// The counter after it handed out a number at uptime tick `ticks`.
pub open spec fn after_take(next: Option<u16>, ticks: u64) -> Option<u16> {
    Some(chat::next_seq(handed_out(next, ticks)))
}

/// Law: of two numbers handed out in a row the second is one more than the
/// first, modulo 2^16, whenever they are taken.
pub proof fn two_numbers_in_a_row(next: Option<u16>, ticks: u64, later: u64)
    ensures
        handed_out(after_take(next, ticks), later) == (handed_out(next, ticks) + 1) % 0x1_0000,
{
}

impl SeqCounter {
    /// Creates a counter that has handed out nothing.
    #[must_use]
    pub fn new() -> (counter: Self)
        ensures
            counter@ is None,
    {
        Self { next: None }
    }

    /// Hands out the next number; `ticks` seeds the first.
    pub fn take(&mut self, ticks: u64) -> (seq: u16)
        ensures
            seq == handed_out(old(self)@, ticks),
            final(self)@ == Some(chat::next_seq(seq)),
            final(self)@ == after_take(old(self)@, ticks),
    {
        let seq: u16 = match self.next {
            Some(seq) => seq,
            None => (ticks % 0x1_0000) as u16,
        };
        self.next = Some(seq.wrapping_add(1));
        seq
    }
}

impl Default for SeqCounter {
    fn default() -> (counter: Self)
        ensures
            counter@ is None,
    {
        Self::new()
    }
}

/// The buttons of a board with canned messages.
#[derive(Copy, Clone, PartialEq, Eq, Structural, Debug)]
pub enum ButtonEvent {
    /// "I am OK" telegram to the buddy.
    A,
    /// "SOS - test" broadcast.
    B,
}

/// What a button says.
pub open spec fn canned_text(button: ButtonEvent) -> Seq<char> {
    match button {
        ButtonEvent::A => "I am OK - long status sent over BLE 5 extended advertising"@,
        ButtonEvent::B => "SOS - test"@,
    }
}

/// The packet that a button sends.
pub open spec fn canned(button: ButtonEvent, local: u32, buddy: u32, seq: u16) -> PacketView {
    PacketView {
        ttl: DEFAULT_TTL,
        seq,
        src: local,
        dest: match button {
            ButtonEvent::A => Some(buddy),
            ButtonEvent::B => None,
        },
        payload: utf8::encode_utf8(canned_text(button)),
    }
}

proof fn lemma_canned_lengths()
    ensures
        utf8::encode_utf8(canned_text(ButtonEvent::A)).len() == 58,
        utf8::encode_utf8(canned_text(ButtonEvent::B)).len() == 10,
{
    reveal_strlit("I am OK - long status sent over BLE 5 extended advertising");
    reveal_strlit("SOS - test");
    utf8::is_ascii_chars_encode_utf8(canned_text(ButtonEvent::A));
    utf8::is_ascii_chars_encode_utf8(canned_text(ButtonEvent::B));
}

/// Law: the status telegram exceeds the legacy budget and goes out as an
/// extended frame; the call for help fits it, so every node hears it.
pub proof fn canned_messages_ride_their_versions(local: u32, buddy: u32, seq: u16)
    ensures
        packet::is_valid(canned(ButtonEvent::A, local, buddy, seq), MAX_EXT_FRAME_LEN as nat),
        packet::is_valid(canned(ButtonEvent::B, local, buddy, seq), MAX_FRAME_LEN as nat),
        wire::version_of(canned(ButtonEvent::A, local, buddy, seq)) == WIRE_VERSION_EXT,
        wire::version_of(canned(ButtonEvent::B, local, buddy, seq)) == WIRE_VERSION,
{
    lemma_canned_lengths();
}

/// Makes the packet that a button sends.
#[must_use]
pub fn canned_packet(button: ButtonEvent, local: WireId, buddy: WireId, seq: u16) -> (packet:
    ExtPacket)
    ensures
        packet@ == canned(button, local@, buddy@, seq),
{
    proof {
        lemma_canned_lengths();
    }
    let made = match button {
        ButtonEvent::A => ExtPacket::telegram(
            local,
            buddy,
            seq,
            "I am OK - long status sent over BLE 5 extended advertising".as_bytes(),
        ),
        ButtonEvent::B => ExtPacket::hearsay(local, seq, "SOS - test".as_bytes()),
    };
    match made {
        Ok(packet) => packet,
        Err(_) => {
            assert(packet::outcome(made) is Ok);
            vstd::pervasive::unreached()
        },
    }
}

/// The echo that a button's message scrolls as.
pub open spec fn echo_text(button: ButtonEvent) -> Seq<char> {
    match button {
        ButtonEvent::A => ">ok"@,
        ButtonEvent::B => ">sos"@,
    }
}

/// Returns the echo that a button's message scrolls as.
#[must_use]
pub fn echo(button: ButtonEvent) -> (text: &'static str)
    ensures
        text@ == echo_text(button),
{
    match button {
        ButtonEvent::A => ">ok",
        ButtonEvent::B => ">sos",
    }
}

/// A board's state.
pub struct NodeView {
    /// The routing state.
    pub router: RouterView,
    /// The next sequence number, once there is one.
    pub seq: Option<u16>,
}

/// A board's state after it originated a packet.
pub open spec fn after_sending(state: NodeView, packet: PacketView) -> NodeView {
    NodeView {
        router: RouterView {
            seen: seen::heard(state.router.seen, packet::key_of(packet)),
            ..state.router
        },
        seq: Some(chat::next_seq(packet.seq)),
    }
}

/// The packet that broadcasts a composed message at uptime tick `ticks`.
pub open spec fn broadcast_of(state: NodeView, message: Seq<char>, ticks: u64) -> PacketView {
    PacketView {
        ttl: DEFAULT_TTL,
        seq: handed_out(state.seq, ticks),
        src: state.router.local,
        dest: None,
        payload: utf8::encode_utf8(message),
    }
}

/// Whether a message fits a broadcast at capacity `cap`.
pub open spec fn broadcast_fits(message: Seq<char>, cap: nat) -> bool {
    utf8::encode_utf8(message).len() + HEADER_LEN_HEARSAY <= cap
}

/// Law: what is composed on one board, the others see: every node that has not
/// heard it shows a packet of the sender whose text is the whole message, and
/// relays it.
pub proof fn what_one_composes_the_others_see(
    state: NodeView,
    message: Seq<char>,
    ticks: u64,
    hearer: RouterView,
    cap: nat,
)
    requires
        7 + utf8::encode_utf8(message).len() <= cap <= MAX_CAPACITY,
        hearer.local != state.router.local,
        hearer.seen.len() == 0,
    ensures
        broadcast_fits(message, cap),
        ({
            let got = router::reaction(
                hearer,
                wire::encoded(broadcast_of(state, message, ticks)),
                cap,
            );
            &&& got.show matches Some(packet)
            &&& packet.src == state.router.local && packet.dest is None
            &&& utf8::valid_utf8(packet.payload) && utf8::decode_utf8(packet.payload) == message
            &&& got.relay is Some
        }),
{
    utf8::encode_utf8_valid_utf8(message);
    utf8::encode_utf8_decode_utf8(message);
    router::a_frame_is_shown_and_relayed_as_due(
        hearer,
        broadcast_of(state, message, ticks),
        cap,
    );
}

/// The protocol side of a board: routing state and sequence numbers.
///
/// Its view is a [`NodeView`].
#[derive(Debug)]
pub struct BoardNode {
    router: Router,
    seq: SeqCounter,
}

impl View for BoardNode {
    type V = NodeView;

    closed spec fn view(&self) -> NodeView {
        NodeView { router: self.router@, seq: self.seq@ }
    }
}

impl BoardNode {
    /// Creates the node identified by `local`.
    #[must_use]
    pub fn new(local: WireId) -> (node: Self)
        ensures
            node@ == (NodeView {
                router: RouterView { local: local@, seen: Seq::empty() },
                seq: None,
            }),
    {
        Self { router: Router::new(local), seq: SeqCounter::new() }
    }

    /// Returns this node's wire id.
    #[must_use]
    pub fn local(&self) -> (local: WireId)
        ensures
            local@ == self@.router.local,
            seen::remembers_well(self@.router.seen),
    {
        self.router.local()
    }

    /// Decides what a received frame leads to.
    pub fn on_frame<const CAP: usize>(&mut self, frame: &FrameN<CAP>) -> (reaction: Reaction<CAP>)
        requires
            HEADER_LEN_TELEGRAM <= CAP <= MAX_CAPACITY,
        ensures
            reaction@ == router::reaction(old(self)@.router, frame@, CAP as nat),
            final(self)@ == (NodeView {
                router: router::after_hearing(old(self)@.router, frame@, CAP as nat),
                seq: old(self)@.seq,
            }),
            reaction@.show matches Some(packet) ==> packet.dest is None || packet.dest == Some(
                old(self)@.router.local,
            ),
            seen::remembers_well(old(self)@.router.seen),
            seen::remembers_well(final(self)@.router.seen),
    {
        self.router.react(frame.as_bytes())
    }

    /// Originates a button's message to the mesh, or to `buddy`, and returns
    /// the frame to air.
    pub fn on_button(&mut self, button: ButtonEvent, buddy: WireId, ticks: u64) -> (frame: ExtFrame)
        ensures
            ({
                let packet = canned(
                    button,
                    old(self)@.router.local,
                    buddy@,
                    handed_out(old(self)@.seq, ticks),
                );
                &&& frame@ == wire::encoded(packet)
                &&& final(self)@ == after_sending(old(self)@, packet)
            }),
            seen::remembers_well(old(self)@.router.seen),
            seen::remembers_well(final(self)@.router.seen),
    {
        let seq: u16 = self.seq.take(ticks);
        let packet = canned_packet(button, self.router.local(), buddy, seq);
        self.router.originate(&packet)
    }

    /// Broadcasts a composed message and returns the frame to air; `None`, and
    /// a sequence number used up, if it exceeds the hearsay budget at this
    /// capacity.
    pub fn on_message<const CAP: usize>(&mut self, message: &str, ticks: u64) -> (sent: Option<
        FrameN<CAP>,
    >)
        requires
            HEADER_LEN_HEARSAY <= CAP <= MAX_CAPACITY,
        ensures
            ({
                let seq = handed_out(old(self)@.seq, ticks);
                let packet = PacketView {
                    ttl: DEFAULT_TTL,
                    seq,
                    src: old(self)@.router.local,
                    dest: None,
                    payload: utf8::encode_utf8(message@),
                };
                if packet.payload.len() <= CAP - HEADER_LEN_HEARSAY {
                    &&& sent matches Some(frame) && frame@ == wire::encoded(packet)
                    &&& final(self)@ == after_sending(old(self)@, packet)
                } else {
                    &&& sent is None
                    &&& final(self)@ == (NodeView {
                        router: old(self)@.router,
                        seq: Some(chat::next_seq(seq)),
                    })
                }
            }),
            sent matches Some(frame) ==> frame@ == wire::encoded(
                broadcast_of(old(self)@, message@, ticks),
            ),
            sent is Some <==> broadcast_fits(message@, CAP as nat),
            seen::remembers_well(old(self)@.router.seen),
            seen::remembers_well(final(self)@.router.seen),
    {
        let seq: u16 = self.seq.take(ticks);
        match PacketN::<CAP>::hearsay(self.router.local(), seq, message.as_bytes()) {
            Ok(packet) => Some(self.router.originate(&packet)),
            Err(_) => None,
        }
    }
}

/// The name that boards go by, without the suffix.
pub open spec fn board_stem() -> Seq<char> {
    seq!['m', 'b']
}

/// Derives a board's display name, `mb-` and four hex digits of the factory
/// device id. It is a node id like any other, so desktop users can address
/// the board by it.
#[must_use]
pub fn board_name(device_id: u32) -> (name: NodeId)
    ensures
        name@ == node_id::display_form(board_stem(), device_id),
        node_id::is_display_form(name@),
        name@.len() == 7,
{
    proof {
        reveal_strlit("mb");
        assert("mb"@ =~= board_stem());
        assert(node_id::is_chosen_name(board_stem()));
        node_id::a_new_id_parses_back(board_stem(), device_id);
        node_id::lemma_display_form_len(board_stem(), device_id);
    }
    match NodeId::new("mb", device_id) {
        Ok(name) => name,
        Err(_) => vstd::pervasive::unreached(),
    }
}

/// The bytes of a static random BLE address, least significant first: the
/// factory device address, with the top two bits set.
pub open spec fn address_bytes(low: u32, high: u32) -> Seq<u8> {
    seq![
        (low % 256) as u8,
        (low / 256 % 256) as u8,
        (low / 0x1_0000 % 256) as u8,
        (low / 0x100_0000) as u8,
        (high % 256) as u8,
        (high / 256 % 64 + 192) as u8,
    ]
}

/// Builds a static random BLE address from the two words of the
/// factory-programmed device address; such addresses have their top two bits
/// set.
#[must_use]
pub fn ble_address(low: u32, high: u32) -> (address: [u8; 6])
    ensures
        address@ == address_bytes(low, high),
        address@[5] / 64 == 3,
{
    let top: u8 = (high / 256 % 256) as u8;
    assert((high / 256 % 256) as u8 | 0b1100_0000u8 == high / 256 % 64 + 192) by (bit_vector);
    assert(high / 256 % 64 + 192 <= 255);
    let address: [u8; 6] = [
        (low % 256) as u8,
        (low / 256 % 256) as u8,
        (low / 0x1_0000 % 256) as u8,
        (low / 0x100_0000) as u8,
        (high % 256) as u8,
        top | 0b1100_0000,
    ];
    assert(address@ =~= address_bytes(low, high));
    address
}

/// Reads the source wire id straight out of an encoded frame, for log lines
/// that should not decode it again.
#[must_use]
pub fn frame_src<const CAP: usize>(frame: &FrameN<CAP>) -> (src: u32)
    requires
        frame@.len() >= HEADER_LEN_HEARSAY,
    ensures
        src == bytes::be32_at(frame@, 3),
{
    read_be32(frame.as_bytes(), 3)
}

/// Law: the source read out of a packet's frame is the packet's source.
pub proof fn the_frame_tells_its_source(packet: PacketView)
    ensures
        bytes::be32_at(wire::encoded(packet), 3) == packet.src,
{
    let frame = wire::encoded(packet);
    assert(frame.subrange(3, 7) =~= bytes::be32(packet.src));
    bytes::lemma_be32_round_trip(frame, 3, packet.src);
}

/// Law: button A tells the buddy, and button B tells everyone; both in this
/// node's name, with the number that was handed out and the default TTL, and
/// the payload is the whole text of the button.
pub proof fn buttons_say_their_text(button: ButtonEvent, local: u32, buddy: u32, seq: u16)
    ensures
        ({
            let packet = canned(button, local, buddy, seq);
            &&& button is A <==> packet.dest == Some(buddy)
            &&& button is B <==> packet.dest is None
            &&& packet.src == local && packet.seq == seq && packet.ttl == 16
            &&& utf8::valid_utf8(packet.payload) && utf8::decode_utf8(packet.payload) == (
            if button is A {
                "I am OK - long status sent over BLE 5 extended advertising"@
            } else {
                "SOS - test"@
            })
        }),
{
    utf8::encode_utf8_valid_utf8(canned_text(button));
    utf8::encode_utf8_decode_utf8(canned_text(button));
}

/// Law: the first number is the low half-word of the uptime tick at which it is
/// taken; each number after that is one more than the one before, modulo 2^16,
/// whenever it is taken.
pub proof fn numbers_follow_one_another(seq: u16, ticks: u64, later: u64)
    ensures
        handed_out(None, ticks) == ticks % 0x1_0000,
        handed_out(Some(seq), ticks) == seq,
        handed_out(Some(chat::next_seq(seq)), later) == (seq + 1) % 0x1_0000,
{
}

/// Law: a board that sends remembers the message as seen, forgets no other but
/// the stalest of a full cache, goes on to the next number, and stays the node
/// it is.
pub proof fn a_board_remembers_what_it_sends(state: NodeView, packet: PacketView, known: u64)
    requires
        seen::remembers_well(state.router.seen),
    ensures
        ({
            let after = after_sending(state, packet);
            &&& after.router.local == state.router.local
            &&& after.seq == Some(((packet.seq + 1) % 0x1_0000) as u16)
            &&& after.router.seen.contains(packet::key_of(packet))
            &&& state.router.seen.contains(known) && (state.router.seen.len() < seen::SEEN_CAPACITY
                || known != state.router.seen[0]) ==> after.router.seen.contains(known)
        }),
{
    seen::hearing_forgets_no_other_key(state.router.seen, packet::key_of(packet), known);
    seen::hearing_keeps_the_cache_well(state.router.seen, packet::key_of(packet));
}

/// Law: a pressed button is seen at every other node that has not heard of it:
/// the call for help by all, the status by the buddy alone.
pub proof fn a_pressed_button_is_shown(
    button: ButtonEvent,
    local: u32,
    buddy: u32,
    seq: u16,
    hearer: RouterView,
)
    requires
        hearer.local != local,
        hearer.seen.len() == 0,
    ensures
        ({
            let packet = canned(button, local, buddy, seq);
            let got = router::reaction(
                hearer,
                wire::encoded(packet),
                MAX_EXT_FRAME_LEN as nat,
            );
            &&& got.show == (if button is B || hearer.local == buddy {
                Some(packet)
            } else {
                None
            })
            &&& got.relay is Some <==> button is B || hearer.local != buddy
        }),
{
    canned_messages_ride_their_versions(local, buddy, seq);
    router::a_frame_is_shown_and_relayed_as_due(
        hearer,
        canned(button, local, buddy, seq),
        MAX_EXT_FRAME_LEN as nat,
    );
}

/// Law: a board's address is the number in the two words, with the less
/// significant byte first and the top two bits set.
pub proof fn an_address_is_the_device_address(low: u32, high: u32)
    ensures
        ({
            let bytes = address_bytes(low, high);
            &&& bytes.len() == 6
            &&& bytes[0] + bytes[1] * 256 + bytes[2] * 0x1_0000 + bytes[3] * 0x100_0000 == low
            &&& bytes[4] + (bytes[5] % 64) * 256 == high % 0x4000
            &&& bytes[5] / 64 == 3
        }),
{
    assert(high % 0x4000 == high % 256 + high / 256 % 64 * 256);
}

/// Law: a board's name is `mb-` and four hex digits, which read back as the low
/// half-word of the device id.
pub proof fn a_board_name_tells_the_device(device_id: u32)
    ensures
        ({
            let name = node_id::display_form(board_stem(), device_id);
            &&& name.len() == 7
            &&& name.take(3) == seq!['m', 'b', '-']
            &&& text::number_read(name.skip(3), 16) == device_id % 0x1_0000
        }),
{
    let name = node_id::display_form(board_stem(), device_id);
    node_id::a_display_form_tells_name_and_entropy(board_stem(), device_id);
    assert(name.take(2) =~= board_stem());
    assert(name.take(3) =~= seq!['m', 'b', '-']);
}

/// Law: a button's echo is marked as an own message and tells the button.
pub proof fn echoes_tell_the_button(button: ButtonEvent)
    ensures
        echo_text(button) == (if button is A {
            seq!['>', 'o', 'k']
        } else {
            seq!['>', 's', 'o', 's']
        }),
{
    reveal_strlit(">ok");
    reveal_strlit(">sos");
    assert(echo_text(button) =~= (if button is A {
        seq!['>', 'o', 'k']
    } else {
        seq!['>', 's', 'o', 's']
    }));
}

} // verus!
