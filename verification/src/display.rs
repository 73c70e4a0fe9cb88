//! Messages for a board's scrolling display.
//!
//! A board has no heap for its messages, so they are fixed-capacity strings of
//! [`heapless`], sized for the largest deliverable payload and its mark.

use crate::node_id::WireId;
use crate::packet::{PacketN, PacketView, MAX_EXT_PAYLOAD_HEARSAY};
use crate::text;
use crate::text::{chars_of, utf8_text};
use crate::wire::MAX_EXT_FRAME_LEN;
use vstd::prelude::*;
use vstd::utf8;

verus! {

/// Bytes that a display message holds: the largest payload and a 2-byte mark.
pub const DISPLAY_LEN: usize = MAX_EXT_PAYLOAD_HEARSAY + 2;

/// The fixed-capacity string of `heapless`, as an opaque type.
#[verifier::external_type_specification]
#[verifier::external_body]
pub struct ExHeaplessString<const N: usize>(heapless::String<N>);

/// A scrollable message.
pub type DisplayMsg = heapless::String<DISPLAY_LEN>;

/// The text that a display message holds.
pub uninterp spec fn shown(message: DisplayMsg) -> Seq<char>;

/// `heapless::String::new`: claims that the string is empty.
#[verifier::external_body]
fn empty_message() -> (message: DisplayMsg)
    ensures
        shown(message) == Seq::<char>::empty(),
{
    DisplayMsg::new()
}

/// `heapless::String::push`: claims that the character is appended where the
/// UTF-8 bytes of the text then fit the capacity, and that otherwise nothing
/// changes and an error is returned.
#[verifier::external_body]
fn push_char(message: &mut DisplayMsg, c: char) -> (pushed: Result<(), ()>)
    ensures
        pushed is Ok <==> utf8::encode_utf8(shown(*old(message)).push(c)).len() <= DISPLAY_LEN,
        pushed is Ok ==> shown(*final(message)) == shown(*old(message)).push(c),
        pushed is Err ==> shown(*final(message)) == shown(*old(message)),
{
    message.push(c)
}

/// `heapless::String::as_str`: claims that the result is the text that the
/// message holds.
#[verifier::external_body]
fn message_str(message: &DisplayMsg) -> (text: &str)
    ensures
        text@ == shown(*message),
{
    message.as_str()
}

/// As much of `text` as fits after `start`, whole characters only.
pub open spec fn fitting(start: Seq<char>, text: Seq<char>) -> Seq<char>
    decreases text.len(),
{
    if text.len() == 0 || utf8::encode_utf8(start.push(text[0])).len() > DISPLAY_LEN {
        start
    } else {
        fitting(start.push(text[0]), text.drop_first())
    }
}

/// Law: a text that fits behind `start` as a whole is not cut.
pub proof fn what_fits_is_not_cut(start: Seq<char>, text: Seq<char>)
    requires
        utf8::encode_utf8(start + text).len() <= DISPLAY_LEN,
    ensures
        fitting(start, text) == start + text,
    decreases text.len(),
{
    if text.len() == 0 {
        assert(start + text =~= start);
    } else {
        let longer = start.push(text[0]);
        assert(longer + text.drop_first() =~= start + text);
        text::lemma_utf8_of_concatenation(longer, text.drop_first());
        what_fits_is_not_cut(longer, text.drop_first());
    }
}

/// Appends as much of `text` as fits, whole characters only.
fn push_fitting(message: &mut DisplayMsg, text: &str)
    ensures
        shown(*final(message)) == fitting(shown(*old(message)), text@),
{
    let chars = chars_of(text);
    let mut i: usize = 0;
    assert(text@.skip(0) =~= text@);
    while i < chars.len()
        invariant
            chars@ == text@,
            i <= text@.len(),
            fitting(shown(*message), text@.skip(i as int)) == fitting(shown(*old(message)), text@),
        decreases text@.len() - i,
    {
        assert(text@.skip(i as int).drop_first() =~= text@.skip(i + 1));
        if push_char(message, chars[i]).is_err() {
            return;
        }
        i += 1;
    }
}

/// What a delivered payload reads as: its text, or a stand-in for bytes that
/// are none.
pub open spec fn payload_text(payload: Seq<u8>) -> Seq<char> {
    if utf8::valid_utf8(payload) {
        utf8::decode_utf8(payload)
    } else {
        "<bin>"@
    }
}

/// How a board marks hearsay.
#[derive(Copy, Clone, PartialEq, Eq, Structural, Debug)]
pub enum HearsayStyle {
    /// A leading `* ` shows where a new broadcast begins as text scrolls past.
    Marked,
    /// Hearsay has no mark.
    Plain,
}

/// The mark of a delivered message.
pub open spec fn mark_text(to_us: bool, style: HearsayStyle) -> Seq<char> {
    if to_us {
        "@ "@
    } else if style == HearsayStyle::Marked {
        "* "@
    } else {
        ""@
    }
}

/// The message that shows a delivered payload: a mark, and the text.
pub open spec fn delivered_text(payload: Seq<u8>, to_us: bool, style: HearsayStyle) -> Seq<char> {
    mark_text(to_us, style) + payload_text(payload)
}

/// A delivered packet as a board presents it.
#[derive(Debug)]
pub struct Presented {
    /// The message to scroll.
    pub message: DisplayMsg,
    /// Whether to chime: telegrams for this node do.
    pub chime: bool,
}

/// Whether a delivered packet chimes at the node `local`.
pub open spec fn chimes(packet: PacketView, local: u32) -> bool {
    packet.dest == Some(local)
}

/// The message that shows a delivered packet at the node `local`.
pub open spec fn presented_text(
    packet: PacketView,
    local: u32,
    style: HearsayStyle,
) -> Seq<char> {
    delivered_text(packet.payload, packet.dest == Some(local), style)
}

/// Law: telegrams for this node, and nothing else, chime and scroll behind an
/// `@`; hearsay scrolls behind a `*` or, on a plain board, as it is. All of the
/// text is there.
pub proof fn telegrams_chime_and_are_marked(
    packet: PacketView,
    text: Seq<char>,
    local: u32,
    style: HearsayStyle,
)
    requires
        packet.payload == utf8::encode_utf8(text),
    ensures
        ({
            let message = presented_text(packet, local, style);
            if packet.dest == Some(local) {
                chimes(packet, local) && message == seq!['@', ' '] + text
            } else {
                !chimes(packet, local) && message == (if style is Marked {
                    seq!['*', ' '] + text
                } else {
                    text
                })
            }
        }),
{
    reveal_strlit("@ ");
    reveal_strlit("* ");
    reveal_strlit("");
    utf8::encode_utf8_valid_utf8(text);
    utf8::encode_utf8_decode_utf8(text);
    let message = presented_text(packet, local, style);
    if packet.dest == Some(local) {
        assert(message =~= seq!['@', ' '] + text);
    } else if style is Marked {
        assert(message =~= seq!['*', ' '] + text);
    } else {
        assert(message =~= text);
    }
}

/// Presents a delivered packet at the node `local`: telegrams addressed to it
/// get an `@` mark and a chime, all else is marked as hearsay in this board's
/// style. The message is never cut.
#[must_use]
pub fn present<const CAP: usize>(
    packet: &PacketN<CAP>,
    local: WireId,
    style: HearsayStyle,
) -> (presented: Presented)
    requires
        CAP <= MAX_EXT_FRAME_LEN,
    ensures
        presented.chime == (packet@.dest == Some(local@)),
        shown(presented.message) == delivered_text(
            packet@.payload,
            packet@.dest == Some(local@),
            style,
        ),
        presented.chime == chimes(packet@, local@),
        shown(presented.message) == presented_text(packet@, local@, style),
{
    let to_us = match packet.dest() {
        Some(dest) => dest == local,
        None => false,
    };
    let payload = packet.payload();
    let text = match utf8_text(payload) {
        Some(text) => text,
        None => "<bin>",
    };
    let mark = if to_us {
        "@ "
    } else {
        match style {
            HearsayStyle::Marked => "* ",
            HearsayStyle::Plain => "",
        }
    };
    proof {
        lemma_mark_lengths();
        if utf8::valid_utf8(payload@) {
            utf8::decode_utf8_encode_utf8(payload@);
        }
        text::lemma_utf8_of_concatenation(mark@, text@);
        assert(Seq::<char>::empty() + mark@ =~= mark@);
        what_fits_is_not_cut(Seq::empty(), mark@);
        what_fits_is_not_cut(mark@, text@);
    }
    let mut message = empty_message();
    push_fitting(&mut message, mark);
    push_fitting(&mut message, text);
    Presented { message, chime: to_us }
}

proof fn lemma_mark_lengths()
    ensures
        utf8::encode_utf8("@ "@).len() == 2,
        utf8::encode_utf8("* "@).len() == 2,
        utf8::encode_utf8(""@).len() == 0,
        utf8::encode_utf8("<bin>"@).len() == 5,
{
    reveal_strlit("@ ");
    reveal_strlit("* ");
    reveal_strlit("");
    reveal_strlit("<bin>");
    utf8::is_ascii_chars_encode_utf8("@ "@);
    utf8::is_ascii_chars_encode_utf8("* "@);
    utf8::is_ascii_chars_encode_utf8(""@);
    utf8::is_ascii_chars_encode_utf8("<bin>"@);
}

/// Turns a short text, such as the echo of an own message, into a message.
#[must_use]
pub fn message_of(text: &str) -> (message: DisplayMsg)
    ensures
        shown(message) == fitting(Seq::empty(), text@),
        utf8::encode_utf8(text@).len() <= DISPLAY_LEN ==> shown(message) == text@,
{
    let mut message = empty_message();
    push_fitting(&mut message, text);
    proof {
        assert(Seq::<char>::empty() + text@ =~= text@);
        if utf8::encode_utf8(text@).len() <= DISPLAY_LEN {
            what_fits_is_not_cut(Seq::empty(), text@);
        }
    }
    message
}

/// Returns the text of a message.
#[must_use]
pub fn text_of(message: &DisplayMsg) -> (text: &str)
    ensures
        text@ == shown(*message),
{
    message_str(message)
}

/// Tells how long a text of `len` bytes takes to scroll across the display.
#[must_use]
pub fn scroll_millis(len: usize, millis_per_char: u64) -> (millis: u64)
    requires
        len * millis_per_char <= u64::MAX,
    ensures
        millis == len * millis_per_char,
{
    len as u64 * millis_per_char
}

/// Law: a delivered message scrolls as its whole text behind its mark: `@ ` for
/// a telegram to this node, `* ` for hearsay where that is marked, and none
/// else. Bytes that are no text scroll as `<bin>`.
pub proof fn a_delivered_text_is_shown_whole(text: Seq<char>, bytes: Seq<u8>, style: HearsayStyle)
    requires
        !utf8::valid_utf8(bytes),
    ensures
        ({
            let payload = utf8::encode_utf8(text);
            &&& delivered_text(payload, true, style) == seq!['@', ' '] + text
            &&& delivered_text(payload, false, HearsayStyle::Marked) == seq!['*', ' '] + text
            &&& delivered_text(payload, false, HearsayStyle::Plain) == text
            &&& delivered_text(bytes, true, style) == seq!['@', ' ', '<', 'b', 'i', 'n', '>']
            &&& delivered_text(bytes, false, HearsayStyle::Plain) == seq!['<', 'b', 'i', 'n', '>']
        }),
{
    reveal_strlit("@ ");
    reveal_strlit("* ");
    reveal_strlit("");
    reveal_strlit("<bin>");
    let payload = utf8::encode_utf8(text);
    utf8::encode_utf8_valid_utf8(text);
    utf8::encode_utf8_decode_utf8(text);
    assert(delivered_text(payload, true, style) =~= seq!['@', ' '] + text);
    assert(delivered_text(payload, false, HearsayStyle::Marked) =~= seq!['*', ' '] + text);
    assert(delivered_text(payload, false, HearsayStyle::Plain) =~= text);
    assert(delivered_text(bytes, true, style) =~= seq!['@', ' ', '<', 'b', 'i', 'n', '>']);
    assert(delivered_text(bytes, false, HearsayStyle::Plain) =~= seq!['<', 'b', 'i', 'n', '>']);
}

/// Law: what is shown of a text is its beginning, within the room there is, and
/// it ends only where the text ends or the next character has no room.
pub proof fn a_text_is_cut_only_for_want_of_room(start: Seq<char>, text: Seq<char>)
    requires
        utf8::encode_utf8(start).len() <= DISPLAY_LEN,
    ensures
        exists|kept: int|
            {
                &&& 0 <= kept <= text.len()
                &&& fitting(start, text) == start + #[trigger] text.take(kept)
                &&& kept < text.len() ==> utf8::encode_utf8(
                    fitting(start, text).push(text[kept]),
                ).len() > DISPLAY_LEN
            },
        utf8::encode_utf8(fitting(start, text)).len() <= DISPLAY_LEN,
    decreases text.len(),
{
    if text.len() == 0 || utf8::encode_utf8(start.push(text[0])).len() > DISPLAY_LEN {
        assert(start + text.take(0) =~= start);
    } else {
        let longer = start.push(text[0]);
        let rest = text.drop_first();
        a_text_is_cut_only_for_want_of_room(longer, rest);
        let kept = choose|kept: int|
            {
                &&& 0 <= kept <= rest.len()
                &&& fitting(longer, rest) == longer + #[trigger] rest.take(kept)
                &&& kept < rest.len() ==> utf8::encode_utf8(
                    fitting(longer, rest).push(rest[kept]),
                ).len() > DISPLAY_LEN
            };
        assert(longer + rest.take(kept) =~= start + text.take(kept + 1));
    }
}

} // verus!
