//! The chat session: what typed lines and received frames lead to.
//!
//! The session performs no I/O. The caller hands it the lines that a person
//! types ([`ChatSession::on_line`]) and the frames that the transport hears
//! ([`ChatSession::on_frame`]), and does what it answers.

use crate::node_id;
use crate::node_id::{NodeId, WireId};
use crate::packet;
use crate::packet::{
    Packet, PacketN, PacketView, DEFAULT_TTL, MAX_CAPACITY, MAX_PAYLOAD_HEARSAY,
    MAX_PAYLOAD_TELEGRAM,
};
use crate::router;
use crate::router::{Reaction, ReactionView, Router, RouterView};
use crate::seen;
use crate::text;
use crate::text::{chars_of, push_decimal, push_hex, same_text, text_of_bytes, trim};
use crate::wire;
use crate::wire::{Frame, FrameN, HEADER_LEN_TELEGRAM, MAX_FRAME_LEN};
use vstd::prelude::*;
use vstd::utf8;

verus! {

/// The hint for a line that starts like a telegram and is none.
pub open spec fn usage_hint() -> Seq<char> {
    "unicast syntax: @node-xxxx message"@
}

/// The hint for a message that exceeds its limit.
pub open spec fn too_long_hint(len: nat, kind: Seq<char>, max: nat) -> Seq<char> {
    "message is "@ + text::decimal(len) + " bytes; "@ + kind + " carry at most "@ + text::decimal(
        max,
    ) + " bytes in this MVP \u{2014} send several shorter ones"@
}

/// The packet that a typed line stands for, or the hint that it is answered
/// with.
///
/// `@name message` is a telegram to the node called `name`; anything else is
/// hearsay.
pub open spec fn outgoing(seq: u16, src: u32, line: Seq<char>) -> Result<PacketView, Seq<char>> {
    if line.len() > 0 && line[0] == '@' {
        let rest = line.skip(1);
        let cut = rest.index_of_first(' ');
        if cut is None {
            Err(usage_hint())
        } else {
            let name = rest.take(cut->0);
            let message = text::trimmed(rest.skip(cut->0 + 1));
            let payload = utf8::encode_utf8(message);
            if message.len() == 0 {
                Err(usage_hint())
            } else if payload.len() > MAX_PAYLOAD_TELEGRAM {
                Err(too_long_hint(payload.len(), "telegrams"@, MAX_PAYLOAD_TELEGRAM as nat))
            } else {
                Ok(
                    PacketView {
                        ttl: DEFAULT_TTL,
                        seq,
                        src,
                        dest: Some(node_id::id_of_name(name)),
                        payload,
                    },
                )
            }
        }
    } else {
        let payload = utf8::encode_utf8(line);
        if payload.len() > MAX_PAYLOAD_HEARSAY {
            Err(too_long_hint(payload.len(), "broadcasts"@, MAX_PAYLOAD_HEARSAY as nat))
        } else {
            Ok(PacketView { ttl: DEFAULT_TTL, seq, src, dest: None, payload })
        }
    }
}

/// The sequence number after `seq`.
pub open spec fn next_seq(seq: u16) -> u16 {
    if seq == u16::MAX {
        0
    } else {
        (seq + 1) as u16
    }
}

fn too_long(len: usize, kind: &str, max: usize) -> (hint: String)
    ensures
        hint@ == too_long_hint(len as nat, kind@, max as nat),
{
    let mut hint = String::new();
    hint.append("message is ");
    push_decimal(&mut hint, len);
    hint.append(" bytes; ");
    hint.append(kind);
    hint.append(" carry at most ");
    push_decimal(&mut hint, max);
    hint.append(" bytes in this MVP \u{2014} send several shorter ones");
    assert(hint@ =~= too_long_hint(len as nat, kind@, max as nat));
    hint
}

/// Finds the first occurrence of `wanted` from `start` on.
fn find_char(chars: &Vec<char>, wanted: char, start: usize) -> (found: Option<usize>)
    requires
        start <= chars@.len(),
    ensures
        found matches Some(at) ==> start <= at < chars@.len() && chars@.skip(
            start as int,
        ).index_of_first(wanted) == Some(at - start),
        found is None ==> chars@.skip(start as int).index_of_first(wanted) is None,
{
    let ghost rest = chars@.skip(start as int);
    let mut at: usize = start;
    while at < chars.len()
        invariant
            start <= at <= chars@.len(),
            rest == chars@.skip(start as int),
            forall|j: int| 0 <= j < at - start ==> rest[j] != wanted,
        decreases chars@.len() - at,
    {
        if chars[at] == wanted {
            proof {
                assert(rest[at - start] == wanted);
                rest.index_of_first_ensures(wanted);
            }
            return Some(at);
        }
        at += 1;
    }
    proof {
        rest.index_of_first_ensures(wanted);
    }
    None
}

/// Parses a typed line into an outgoing packet, advancing `seq`.
///
/// # Errors
/// Returns the hint to show, and leaves `seq` as it is, if the line is a
/// telegram without a message or the message exceeds its limit.
pub fn parse_outgoing(seq: &mut u16, src: WireId, line: &str) -> (parsed: Result<Packet, String>)
    ensures
        parsed is Ok <==> outgoing(*old(seq), src@, line@) is Ok,
        parsed matches Ok(packet) ==> outgoing(*old(seq), src@, line@) == Ok::<
            PacketView,
            Seq<char>,
        >(packet@),
        parsed matches Err(hint) ==> outgoing(*old(seq), src@, line@) == Err::<
            PacketView,
            Seq<char>,
        >(hint@),
        *final(seq) == (if parsed is Ok {
            next_seq(*old(seq))
        } else {
            *old(seq)
        }),
{
    let next: u16 = *seq;
    let chars = chars_of(line);
    let made = if chars.len() > 0 && chars[0] == '@' {
        let cut: usize = match find_char(&chars, ' ', 1) {
            Some(cut) => cut,
            None => return Err("unicast syntax: @node-xxxx message".to_owned()),
        };
        let name = line.substring_char(1, cut);
        let after = line.substring_char(cut + 1, chars.len());
        proof {
            let rest = line@.skip(1);
            assert(name@ =~= rest.take(cut - 1));
            assert(after@ =~= rest.skip(cut as int));
        }
        let message = trim(after);
        if message.is_empty() {
            return Err("unicast syntax: @node-xxxx message".to_owned());
        }
        let payload = message.as_bytes();
        if payload.len() > MAX_PAYLOAD_TELEGRAM {
            return Err(too_long(payload.len(), "telegrams", MAX_PAYLOAD_TELEGRAM));
        }
        Packet::telegram(src, WireId::of_name(name), next, payload)
    } else {
        let payload = line.as_bytes();
        if payload.len() > MAX_PAYLOAD_HEARSAY {
            return Err(too_long(payload.len(), "broadcasts", MAX_PAYLOAD_HEARSAY));
        }
        Packet::hearsay(src, next, payload)
    };
    match made {
        Ok(packet) => {
            *seq = seq.wrapping_add(1);
            Ok(packet)
        },
        Err(_) => {
            assert(packet::outcome(made) is Ok);
            vstd::pervasive::unreached()
        },
    }
}

/// Law: a typed packet comes from this node, carries its next sequence number
/// and the default TTL, and is valid.
pub proof fn typed_packets_are_valid(seq: u16, src: u32, line: Seq<char>)
    ensures
        outgoing(seq, src, line) matches Ok(packet) ==> packet.seq == seq && packet.src == src
            && packet.ttl == DEFAULT_TTL && packet::is_valid(packet, MAX_FRAME_LEN as nat),
{
}

/// What a typed line leads to.
#[derive(Debug)]
pub enum LineReaction {
    /// Nothing was typed.
    Idle,
    /// The session ends.
    Quit,
    /// Hand this frame to the transport as our own.
    Send(Frame),
    /// Show this hint.
    Reject(String),
}

/// What a [`LineReaction`] says, frames by their bytes.
pub enum LineReactionView {
    Idle,
    Quit,
    Send(Seq<u8>),
    Reject(Seq<char>),
}

impl View for LineReaction {
    type V = LineReactionView;

    open spec fn view(&self) -> LineReactionView {
        match self {
            LineReaction::Idle => LineReactionView::Idle,
            LineReaction::Quit => LineReactionView::Quit,
            LineReaction::Send(frame) => LineReactionView::Send(frame@),
            LineReaction::Reject(hint) => LineReactionView::Reject(hint@),
        }
    }
}

/// A session's state.
pub struct SessionView {
    /// The routing state.
    pub router: RouterView,
    /// The sequence number of the next packet.
    pub seq: u16,
}

/// What a session answers to a typed line.
pub open spec fn line_reaction(state: SessionView, line: Seq<char>) -> LineReactionView {
    let typed = text::trimmed(line);
    if typed.len() == 0 {
        LineReactionView::Idle
    } else if typed == "/quit"@ {
        LineReactionView::Quit
    } else {
        match outgoing(state.seq, state.router.local, typed) {
            Ok(packet) => LineReactionView::Send(wire::encoded(packet)),
            Err(hint) => LineReactionView::Reject(hint),
        }
    }
}

/// The session's state after a typed line: what was sent is remembered as
/// seen and has used its sequence number.
pub open spec fn after_line(state: SessionView, line: Seq<char>) -> SessionView {
    let sent = outgoing(state.seq, state.router.local, text::trimmed(line));
    if line_reaction(state, line) is Send {
        SessionView {
            router: RouterView {
                seen: seen::heard(state.router.seen, packet::key_of(sent->Ok_0)),
                ..state.router
            },
            seq: next_seq(state.seq),
        }
    } else {
        state
    }
}

/// What a session answers to a received frame of capacity `cap`. What does not
/// decode is routine radio noise.
pub open spec fn frame_reaction(state: SessionView, bytes: Seq<u8>, cap: nat) -> ReactionView {
    router::reaction(state.router, bytes, cap)
}

/// The session's state after a received frame of capacity `cap`.
pub open spec fn after_frame(state: SessionView, bytes: Seq<u8>, cap: nat) -> SessionView {
    SessionView { router: router::after_hearing(state.router, bytes, cap), ..state }
}

/// A chat session of one node.
///
/// Its view is a [`SessionView`].
#[derive(Debug)]
pub struct ChatSession {
    router: Router,
    seq: u16,
}

impl View for ChatSession {
    type V = SessionView;

    closed spec fn view(&self) -> SessionView {
        SessionView { router: self.router@, seq: self.seq }
    }
}

impl ChatSession {
    /// Starts a session. A random `seq` keeps a restarted node from colliding
    /// with its earlier packets in peers' seen caches.
    #[must_use]
    pub fn new(local: WireId, seq: u16) -> (session: Self)
        ensures
            session@ == (SessionView {
                router: RouterView { local: local@, seen: Seq::empty() },
                seq,
            }),
    {
        Self { router: Router::new(local), seq }
    }

    /// Returns this node's wire id.
    #[must_use]
    pub fn local(&self) -> (local: WireId)
        ensures
            local@ == self@.router.local,
            seen::remembers_well(self@.router.seen),
    {
        self.router.local()
    }

    /// Decides what a typed line leads to.
    pub fn on_line(&mut self, line: &str) -> (reaction: LineReaction)
        ensures
            reaction@ == line_reaction(old(self)@, line@),
            final(self)@ == after_line(old(self)@, line@),
            seen::remembers_well(old(self)@.router.seen),
            seen::remembers_well(final(self)@.router.seen),
    {
        let local = self.router.local();
        let typed = trim(line);
        if typed.is_empty() {
            return LineReaction::Idle;
        }
        if same_text(typed, "/quit") {
            return LineReaction::Quit;
        }
        match parse_outgoing(&mut self.seq, local, typed) {
            Ok(packet) => LineReaction::Send(self.router.originate(&packet)),
            Err(hint) => LineReaction::Reject(hint),
        }
    }

    /// Decides what a received frame leads to. Only hearsay and telegrams for
    /// this node are shown. A session of extended capacity understands both
    /// wire versions.
    pub fn on_frame<const CAP: usize>(&mut self, frame: &FrameN<CAP>) -> (reaction: Reaction<CAP>)
        requires
            HEADER_LEN_TELEGRAM <= CAP <= MAX_CAPACITY,
        ensures
            reaction@ == frame_reaction(old(self)@, frame@, CAP as nat),
            final(self)@ == after_frame(old(self)@, frame@, CAP as nat),
            reaction@.show matches Some(packet) ==> packet.dest is None || packet.dest == Some(
                old(self)@.router.local,
            ),
            seen::remembers_well(old(self)@.router.seen),
            seen::remembers_well(final(self)@.router.seen),
    {
        self.router.react(frame.as_bytes())
    }
}

/// Law: a session shows each message once. When the frame of a message that
/// was just heard arrives again, whatever its TTL, nothing is shown and
/// nothing is relayed.
pub proof fn a_message_is_shown_once(
    state: SessionView,
    first: PacketView,
    second: PacketView,
    cap: nat,
)
    requires
        packet::is_valid(first, cap),
        packet::is_valid(second, cap),
        packet::same_message(first, second),
    ensures
        frame_reaction(after_frame(state, wire::encoded(first), cap), wire::encoded(second), cap)
            == (ReactionView { show: None, relay: None }),
{
    wire::decoding_undoes_encoding(first, cap);
    wire::decoding_undoes_encoding(second, cap);
    if first.src != state.router.local {
        router::a_message_heard_again_is_a_duplicate(
            state.router.local,
            state.router.seen,
            first,
            second,
        );
    }
}

/// Law: what a session sends is not shown or relayed when it echoes back.
pub proof fn a_sent_message_is_not_shown(state: SessionView, line: Seq<char>, cap: nat)
    requires
        line_reaction(state, line) is Send,
        MAX_FRAME_LEN <= cap <= MAX_CAPACITY,
    ensures
        frame_reaction(after_line(state, line), line_reaction(state, line)->Send_0, cap) == (
        ReactionView { show: None, relay: None }),
{
    let packet = outgoing(state.seq, state.router.local, text::trimmed(line))->Ok_0;
    typed_packets_are_valid(state.seq, state.router.local, text::trimmed(line));
    wire::decoding_undoes_encoding(packet, cap);
}

/// The first line that a person sees.
pub open spec fn greeting_text(name: Seq<char>) -> Seq<char> {
    "you are "@ + name + " (wire id "@ + text::hex(node_id::id_of_name(name) as nat, 8) + ")"@
}

/// Tells a person who they are.
#[must_use]
pub fn greeting(node: &NodeId) -> (line: String)
    ensures
        line@ == greeting_text(node@),
{
    let mut line = String::new();
    line.append("you are ");
    line.append(node.as_str());
    line.append(" (wire id ");
    push_hex(&mut line, node.wire_id().get(), 8);
    line.append(")");
    assert(line@ =~= greeting_text(node@));
    line
}

/// The line that shows a delivered message.
pub open spec fn delivery_text(
    now: Seq<char>,
    src: u32,
    to_us: bool,
    message: Seq<char>,
) -> Seq<char> {
    now + " ["@ + text::hex(src as nat, 8) + " \u{2192} "@ + (if to_us {
        "you"@
    } else {
        "all"@
    }) + "] "@ + message
}

/// Writes the line that shows a message: when it came, from whom and to whom.
#[must_use]
pub fn message_line(now: &str, src: WireId, to_us: bool, message: &str) -> (line: String)
    ensures
        line@ == delivery_text(now@, src@, to_us, message@),
{
    let mut line = String::new();
    line.append(now);
    line.append(" [");
    push_hex(&mut line, src.get(), 8);
    line.append(" \u{2192} ");
    line.append(
        if to_us {
            "you"
        } else {
            "all"
        },
    );
    line.append("] ");
    line.append(message);
    assert(line@ =~= delivery_text(now@, src@, to_us, message@));
    line
}

/// The line that shows a delivered packet at the node `local`.
pub open spec fn delivered(now: Seq<char>, packet: PacketView, local: u32) -> Seq<char> {
    delivery_text(now, packet.src, packet.dest == Some(local), text::lossy(packet.payload))
}

/// Law: a delivered packet is shown with its own source and its whole message,
/// as for `you` exactly if it is addressed to this node, and else as for `all`.
pub proof fn a_delivery_tells_what_came(now: Seq<char>, packet: PacketView, local: u32)
    ensures
        ({
            let line = delivered(now, packet, local);
            let at = now.len() as int;
            &&& line.take(at) == now
            &&& text::number_read(line.subrange(at + 2, at + 10), 16) == packet.src
            &&& line.subrange(at + 13, at + 16) == seq!['y', 'o', 'u'] <==> packet.dest == Some(
                local,
            )
            &&& line.subrange(at + 13, at + 16) == seq!['a', 'l', 'l'] <==> packet.dest != Some(
                local,
            )
            &&& line.skip(at + 18) == text::lossy(packet.payload)
        }),
{
    a_shown_line_tells_its_sender(
        now,
        packet.src,
        packet.dest == Some(local),
        text::lossy(packet.payload),
    );
    let you = seq!['y', 'o', 'u'];
    let all = seq!['a', 'l', 'l'];
    assert(you[0] != all[0]);
}

/// Writes the line that shows a delivered packet at the node `local`.
///
/// A telegram for another node is never delivered, so what is not addressed to
/// us is hearsay addressed to everyone.
#[must_use]
pub fn delivery_line<const CAP: usize>(now: &str, packet: &PacketN<CAP>, local: WireId) -> (line:
    String)
    ensures
        line@ == delivery_text(
            now@,
            packet@.src,
            packet@.dest == Some(local@),
            text::lossy(packet@.payload),
        ),
        utf8::valid_utf8(packet@.payload) ==> line@ == delivery_text(
            now@,
            packet@.src,
            packet@.dest == Some(local@),
            utf8::decode_utf8(packet@.payload),
        ),
        line@ == delivered(now@, packet@, local@),
{
    let to_us = match packet.dest() {
        Some(dest) => dest == local,
        None => false,
    };
    let message = text_of_bytes(packet.payload());
    message_line(now, packet.src(), to_us, message.as_str())
}

/// Law: what is typed is what is sent. A line of at most 15 bytes that does not
/// start with `@` becomes hearsay whose payload is the text of the whole line;
/// a longer one is refused with a hint that tells its length and the limit.
pub proof fn what_is_typed_is_broadcast(seq: u16, src: u32, line: Seq<char>)
    requires
        line.len() == 0 || line[0] != '@',
    ensures
        utf8::encode_utf8(line).len() <= 15 ==> {
            &&& outgoing(seq, src, line) matches Ok(packet)
            &&& packet.dest is None
            &&& utf8::valid_utf8(packet.payload) && utf8::decode_utf8(packet.payload) == line
            &&& packet.seq == seq && packet.src == src && packet.ttl == 16
        },
        utf8::encode_utf8(line).len() > 15 ==> outgoing(seq, src, line) == Err::<
            PacketView,
            Seq<char>,
        >(too_long_hint(utf8::encode_utf8(line).len(), "broadcasts"@, 15)),
{
    utf8::encode_utf8_valid_utf8(line);
    utf8::encode_utf8_decode_utf8(line);
}

/// Law: what is typed is what is sent, to whom it is addressed. `@name message`
/// becomes a telegram to the node called `name`, whose payload is the text of
/// the whole message but for the white space around it. It is refused if the
/// message is blank or has more than 11 bytes.
pub proof fn what_is_addressed_is_sent_there(
    seq: u16,
    src: u32,
    name: Seq<char>,
    message: Seq<char>,
)
    requires
        !name.contains(' '),
    ensures
        ({
            let sent = outgoing(seq, src, seq!['@'] + name + seq![' '] + message);
            let body = text::trimmed(message);
            let len = utf8::encode_utf8(body).len();
            &&& body.len() == 0 ==> sent == Err::<PacketView, Seq<char>>(usage_hint())
            &&& len > 11 ==> sent == Err::<PacketView, Seq<char>>(
                too_long_hint(len, "telegrams"@, 11),
            )
            &&& body.len() > 0 && len <= 11 ==> {
                &&& sent matches Ok(packet)
                &&& packet.dest == Some(node_id::id_of_name(name))
                &&& utf8::valid_utf8(packet.payload) && utf8::decode_utf8(packet.payload) == body
                &&& packet.seq == seq && packet.src == src && packet.ttl == 16
            }
        }),
{
    let line = seq!['@'] + name + seq![' '] + message;
    let rest = line.skip(1);
    let body = text::trimmed(message);
    rest.index_of_first_ensures(' ');
    assert(rest[name.len() as int] == ' ');
    let cut = rest.index_of_first(' ')->0;
    if cut < name.len() {
        assert(name[cut] == rest[cut]);
    }
    assert(rest.take(cut) =~= name);
    assert(rest.skip(cut + 1) =~= message);
    utf8::encode_utf8_valid_utf8(body);
    utf8::encode_utf8_decode_utf8(body);
    if body.len() == 0 {
        assert(utf8::encode_utf8(body).len() == 0);
    }
}

/// Law: a line that starts with `@` and has no space is answered with the
/// telegram syntax.
pub proof fn an_address_alone_is_refused(seq: u16, src: u32, name: Seq<char>)
    requires
        !name.contains(' '),
    ensures
        outgoing(seq, src, seq!['@'] + name) == Err::<PacketView, Seq<char>>(usage_hint()),
{
    let line = seq!['@'] + name;
    assert(line.skip(1) =~= name);
    name.index_of_first_ensures(' ');
}

/// Law: white space around a line makes no difference. A blank line leads to
/// nothing, `/quit` ends the session, and any other line is sent, or refused
/// with the hint.
pub proof fn lines_lead_to_what_is_typed(
    state: SessionView,
    lead: Seq<char>,
    typed: Seq<char>,
    tail: Seq<char>,
)
    requires
        text::all_white(lead),
        text::all_white(tail),
        typed.len() > 0 ==> !text::is_white(typed[0]) && !text::is_white(typed[typed.len() - 1]),
    ensures
        ({
            let got = line_reaction(state, lead + typed + tail);
            let sent = outgoing(state.seq, state.router.local, typed);
            &&& got == LineReactionView::Idle <==> typed.len() == 0
            &&& got == LineReactionView::Quit <==> typed == "/quit"@
            &&& typed.len() > 0 && typed != "/quit"@ ==> {
                &&& sent matches Ok(packet) ==> got == LineReactionView::Send(wire::encoded(packet))
                &&& sent matches Err(hint) ==> got == LineReactionView::Reject(hint)
            }
        }),
{
    reveal_strlit("/quit");
    text::trimming_leaves_the_text(lead, typed, tail);
}

/// Law: what one person types, the others see. The frame of a typed broadcast
/// is shown at every node that has not heard it, as a packet of the sender
/// whose text is what was typed; a telegram is shown at the addressee alone.
pub proof fn what_one_types_the_others_see(
    sender: SessionView,
    line: Seq<char>,
    hearer: SessionView,
    cap: nat,
)
    requires
        line_reaction(sender, line) is Send,
        sender.router.local != hearer.router.local,
        hearer.router.seen.len() == 0,
        22 <= cap <= MAX_CAPACITY,
    ensures
        ({
            let typed = text::trimmed(line);
            let got = frame_reaction(hearer, line_reaction(sender, line)->Send_0, cap);
            let sent = outgoing(sender.seq, sender.router.local, typed)->Ok_0;
            &&& typed[0] != '@' ==> {
                &&& got.show matches Some(packet)
                &&& packet.src == sender.router.local && packet.dest is None
                &&& utf8::decode_utf8(packet.payload) == typed
                &&& got.relay is Some
            }
            &&& typed[0] == '@' ==> {
                &&& got.show is Some <==> sent.dest == Some(hearer.router.local)
                &&& got.show matches Some(packet) ==> packet == sent
                &&& got.relay is Some <==> sent.dest != Some(hearer.router.local)
            }
        }),
{
    let typed = text::trimmed(line);
    let sent = outgoing(sender.seq, sender.router.local, typed)->Ok_0;
    typed_packets_are_valid(sender.seq, sender.router.local, typed);
    router::a_frame_is_shown_and_relayed_as_due(hearer.router, sent, cap);
    if typed[0] != '@' {
        what_is_typed_is_broadcast(sender.seq, sender.router.local, typed);
    } else {
        assert(sent.dest is Some);
    }
}

/// Law: a session that sends uses one sequence number, remembers the message as
/// seen, forgets no other but the stalest of a full cache, and stays the node
/// it is. A line that sends nothing changes nothing.
pub proof fn sending_uses_one_number(state: SessionView, line: Seq<char>, known: u64)
    requires
        seen::remembers_well(state.router.seen),
    ensures
        ({
            let after = after_line(state, line);
            let sent = outgoing(state.seq, state.router.local, text::trimmed(line));
            let got = line_reaction(state, line);
            &&& after.router.local == state.router.local
            &&& !(got is Send) ==> after == state
            &&& got is Send ==> {
                &&& after.seq == (state.seq + 1) % 0x1_0000
                &&& sent matches Ok(packet) && packet.seq == state.seq
                    && after.router.seen.contains(packet::key_of(packet))
                &&& state.router.seen.contains(known) && (state.router.seen.len()
                    < seen::SEEN_CAPACITY || known != state.router.seen[0])
                    ==> after.router.seen.contains(known)
            }
        }),
{
    let typed = text::trimmed(line);
    if line_reaction(state, line) is Send {
        let packet = outgoing(state.seq, state.router.local, typed)->Ok_0;
        typed_packets_are_valid(state.seq, state.router.local, typed);
        seen::hearing_forgets_no_other_key(state.router.seen, packet::key_of(packet), known);
        seen::hearing_keeps_the_cache_well(state.router.seen, packet::key_of(packet));
    }
}

/// Law: a received frame leaves the sequence number alone.
pub proof fn hearing_uses_no_number(state: SessionView, bytes: Seq<u8>, cap: nat)
    ensures
        after_frame(state, bytes, cap).seq == state.seq,
        after_frame(state, bytes, cap).router.local == state.router.local,
{
}

/// Law: the shown line tells when, from whom, to whom and what. It starts with
/// the time and ends with the message, and the eight characters after ` [` read
/// in hex are the full 32-bit source.
pub proof fn a_shown_line_tells_its_sender(
    now: Seq<char>,
    src: u32,
    to_us: bool,
    message: Seq<char>,
)
    ensures
        ({
            let line = delivery_text(now, src, to_us, message);
            let at = now.len() as int;
            &&& line.len() == at + 18 + message.len()
            &&& line.take(at) == now
            &&& line[at] == ' ' && line[at + 1] == '['
            &&& text::number_read(line.subrange(at + 2, at + 10), 16) == src
            &&& line.subrange(at + 2, at + 10) == text::hex(src as nat, 8)
            &&& line.subrange(at + 13, at + 16) == (if to_us {
                seq!['y', 'o', 'u']
            } else {
                seq!['a', 'l', 'l']
            })
            &&& line[at + 16] == ']' && line[at + 17] == ' '
            &&& line.skip(at + 18) == message
        }),
{
    let line = delivery_text(now, src, to_us, message);
    let at = now.len() as int;
    let digits = text::hex(src as nat, 8);
    reveal_strlit(" [");
    reveal_strlit(" \u{2192} ");
    reveal_strlit("you");
    reveal_strlit("all");
    reveal_strlit("] ");
    text::eight_hex_digits_tell_the_number(src);
    assert(line.take(at) =~= now);
    assert(line.subrange(at + 2, at + 10) =~= digits);
    let to = if to_us {
        seq!['y', 'o', 'u']
    } else {
        seq!['a', 'l', 'l']
    };
    assert(line.subrange(at + 13, at + 16) =~= to);
    assert(line.skip(at + 18) =~= message);
}

/// Law: lines that differ in the sender, the addressee or the message are
/// different.
pub proof fn shown_lines_tell_messages_apart(
    now: Seq<char>,
    src: u32,
    to_us: bool,
    message: Seq<char>,
    other_src: u32,
    other_to_us: bool,
    other_message: Seq<char>,
)
    requires
        delivery_text(now, src, to_us, message) == delivery_text(
            now,
            other_src,
            other_to_us,
            other_message,
        ),
    ensures
        src == other_src,
        to_us == other_to_us,
        message == other_message,
{
    a_shown_line_tells_its_sender(now, src, to_us, message);
    a_shown_line_tells_its_sender(now, other_src, other_to_us, other_message);
    let yes = seq!['y', 'o', 'u'];
    let no = seq!['a', 'l', 'l'];
    assert(yes[0] != no[0]);
}

/// Law: the greeting tells the name and, in its last eight digits, the wire id
/// that is derived from it.
pub proof fn a_greeting_tells_who_one_is(name: Seq<char>)
    ensures
        ({
            let line = greeting_text(name);
            let len = line.len() as int;
            &&& len == name.len() + 27
            &&& line.subrange(8, 8 + name.len() as int) == name
            &&& text::number_read(line.subrange(len - 9, len - 1), 16) == node_id::id_of_name(name)
        }),
{
    let line = greeting_text(name);
    let len = line.len() as int;
    reveal_strlit("you are ");
    reveal_strlit(" (wire id ");
    reveal_strlit(")");
    text::eight_hex_digits_tell_the_number(node_id::id_of_name(name));
    assert(line.subrange(8, 8 + name.len() as int) =~= name);
    assert(line.subrange(len - 9, len - 1) =~= text::hex(node_id::id_of_name(name) as nat, 8));
}

/// Law: the hint for a message that is too long tells its length and the
/// limit.
pub proof fn a_too_long_hint_tells_the_numbers(
    len: nat,
    max: nat,
    kind: Seq<char>,
    other_len: nat,
    other_max: nat,
)
    requires
        too_long_hint(len, kind, max) == too_long_hint(other_len, kind, other_max),
    ensures
        len == other_len,
        max == other_max,
{
    reveal_strlit("message is ");
    reveal_strlit(" bytes; ");
    reveal_strlit(" carry at most ");
    reveal_strlit(" bytes in this MVP \u{2014} send several shorter ones");
    let start = "message is "@;
    let middle = " bytes; "@ + kind + " carry at most "@;
    let end = " bytes in this MVP \u{2014} send several shorter ones"@;
    let a = middle + text::decimal(max) + end;
    let b = middle + text::decimal(other_max) + end;
    let (x, y) = (too_long_hint(len, kind, max), too_long_hint(other_len, kind, other_max));
    assert(x.skip(start.len() as int) =~= text::decimal(len) + a);
    assert(y.skip(start.len() as int) =~= text::decimal(other_len) + b);
    assert(a[0] == ' ' && b[0] == ' ');
    text::a_number_in_a_text_is_told_apart(len, a, other_len, b);
    assert(a.skip(middle.len() as int) =~= text::decimal(max) + end);
    assert(b.skip(middle.len() as int) =~= text::decimal(other_max) + end);
    text::a_number_in_a_text_is_told_apart(max, end, other_max, end);
}

} // verus!
