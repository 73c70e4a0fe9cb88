//! Building the texts that people read: numbers, hex and messages.

use vstd::prelude::*;

verus! {

/// `String::push`: claims that the character is appended to the string.
pub assume_specification[ std::string::String::push ](s: &mut std::string::String, c: char)
    ensures
        final(s)@ == old(s)@.push(c),
;

/// The digit character of `value`, which is below sixteen; letters are
/// lowercase.
pub open spec fn digit(value: int) -> char {
    if value < 10 {
        (48 + value) as char
    } else {
        (87 + value) as char
    }
}

/// `value` in decimal, without leading zeros.
pub open spec fn decimal(value: nat) -> Seq<char>
    decreases value,
{
    if value < 10 {
        seq![digit(value as int)]
    } else {
        decimal(value / 10).push(digit((value % 10) as int))
    }
}

/// The low `digits` hex digits of `value`, lowercase, padded with zeros.
pub open spec fn hex(value: nat, digits: nat) -> Seq<char>
    decreases digits,
{
    if digits == 0 {
        Seq::empty()
    } else {
        hex(value / 16, (digits - 1) as nat).push(digit((value % 16) as int))
    }
}

fn digit_char(value: u8) -> (c: char)
    requires
        value < 16,
    ensures
        c == digit(value as int),
{
    if value < 10 {
        (48 + value) as char
    } else {
        (87 + value) as char
    }
}

/// Appends `value` in decimal.
pub(crate) fn push_decimal(text: &mut String, value: usize)
    ensures
        final(text)@ == old(text)@ + decimal(value as nat),
    decreases value,
{
    if value >= 10 {
        push_decimal(text, value / 10);
    }
    text.push(digit_char((value % 10) as u8));
    assert(text@ =~= old(text)@ + decimal(value as nat));
}

/// Appends the low `digits` hex digits of `value`.
pub(crate) fn push_hex(text: &mut String, value: u32, digits: u8)
    ensures
        final(text)@ == old(text)@ + hex(value as nat, digits as nat),
    decreases digits,
{
    if digits == 0 {
        assert(text@ =~= old(text)@ + hex(value as nat, digits as nat));
    } else {
        push_hex(text, value / 16, digits - 1);
        text.push(digit_char((value % 16) as u8));
        assert(text@ =~= old(text)@ + hex(value as nat, digits as nat));
    }
}

/// The characters that Unicode counts as white space.
pub open spec fn is_white(c: char) -> bool {
    let code = c as u32;
    ||| 0x09 <= code <= 0x0D
    ||| code == 0x20
    ||| code == 0x85
    ||| code == 0xA0
    ||| code == 0x1680
    ||| 0x2000 <= code <= 0x200A
    ||| code == 0x2028
    ||| code == 0x2029
    ||| code == 0x202F
    ||| code == 0x205F
    ||| code == 0x3000
}

/// Tells whether a character is white space.
pub fn is_white_space(c: char) -> (white: bool)
    ensures
        white == is_white(c),
{
    let code: u32 = c as u32;
    (0x09 <= code && code <= 0x0D) || code == 0x20 || code == 0x85 || code == 0xA0 || code == 0x1680
        || (0x2000 <= code && code <= 0x200A) || code == 0x2028 || code == 0x2029 || code == 0x202F
        || code == 0x205F || code == 0x3000
}

/// Text without its leading white space.
pub open spec fn trimmed_start(text: Seq<char>) -> Seq<char>
    decreases text.len(),
{
    if text.len() > 0 && is_white(text.first()) {
        trimmed_start(text.drop_first())
    } else {
        text
    }
}

/// Text without its trailing white space.
pub open spec fn trimmed_end(text: Seq<char>) -> Seq<char>
    decreases text.len(),
{
    if text.len() > 0 && is_white(text.last()) {
        trimmed_end(text.drop_last())
    } else {
        text
    }
}

/// Text without the white space around it.
pub open spec fn trimmed(text: Seq<char>) -> Seq<char> {
    trimmed_end(trimmed_start(text))
}

/// The characters of a string, in order.
pub(crate) fn chars_of(text: &str) -> (chars: Vec<char>)
    ensures
        chars@ == text@,
{
    broadcast use vstd::string::axiom_spec_iter;

    let mut chars: Vec<char> = Vec::new();
    for c in it: text.chars()
        invariant
            chars@ == it.seq().take(it.index()),
            it.seq() == text@,
    {
        chars.push(c);
    }
    chars
}

/// Takes away the white space around a text.
pub fn trim(text: &str) -> (rest: &str)
    ensures
        rest@ == trimmed(text@),
{
    let chars = chars_of(text);
    let len: usize = chars.len();
    let mut start: usize = 0;
    assert(text@.skip(0) =~= text@);
    while start < len && is_white_space(chars[start])
        invariant
            chars@ == text@,
            start <= len == text@.len(),
            trimmed_start(text@) == trimmed_start(text@.skip(start as int)),
        decreases len - start,
    {
        assert(text@.skip(start as int).drop_first() =~= text@.skip(start + 1));
        start += 1;
    }
    let ghost kept = text@.skip(start as int);
    assert(trimmed_start(text@) == kept);
    let mut end: usize = len;
    assert(text@.subrange(start as int, end as int) =~= kept);
    while start < end && is_white_space(chars[end - 1])
        invariant
            chars@ == text@,
            start <= end <= len == text@.len(),
            trimmed_end(kept) == trimmed_end(text@.subrange(start as int, end as int)),
        decreases end,
    {
        assert(text@.subrange(start as int, end as int).drop_last() =~= text@.subrange(
            start as int,
            end - 1,
        ));
        end -= 1;
    }
    text.substring_char(start, end)
}

/// Tells whether two texts are equal.
pub(crate) fn same_text(a: &str, b: &str) -> (same: bool)
    ensures
        same == (a@ == b@),
{
    a.to_owned() == b.to_owned()
}

/// Bytes as text, with what is not UTF-8 replaced.
pub uninterp spec fn lossy(bytes: Seq<u8>) -> Seq<char>;

/// `String::from_utf8_lossy`: claims that the text depends on the bytes alone,
/// and that it is what the bytes decode to where they are UTF-8.
#[verifier::external_body]
pub(crate) fn text_of_bytes(bytes: &[u8]) -> (text: String)
    ensures
        text@ == lossy(bytes@),
        vstd::utf8::valid_utf8(bytes@) ==> text@ == vstd::utf8::decode_utf8(bytes@),
{
    String::from_utf8_lossy(bytes).into_owned()
}

/// `core::str::from_utf8`: claims that it succeeds exactly on UTF-8, and that
/// the text is then what the bytes decode to.
#[verifier::external_body]
pub(crate) fn utf8_text(bytes: &[u8]) -> (text: Option<&str>)
    ensures
        text is Some <==> vstd::utf8::valid_utf8(bytes@),
        text matches Some(decoded) ==> decoded@ == vstd::utf8::decode_utf8(bytes@),
{
    core::str::from_utf8(bytes).ok()
}

/// The UTF-8 bytes of two texts in a row.
pub proof fn lemma_utf8_of_concatenation(a: Seq<char>, b: Seq<char>)
    ensures
        vstd::utf8::encode_utf8(a + b) == vstd::utf8::encode_utf8(a) + vstd::utf8::encode_utf8(b),
    decreases a.len(),
{
    if a.len() == 0 {
        assert(a + b =~= b);
        assert(vstd::utf8::encode_utf8(a) + vstd::utf8::encode_utf8(b)
            =~= vstd::utf8::encode_utf8(b));
    } else {
        lemma_utf8_of_concatenation(a.drop_first(), b);
        assert((a + b).drop_first() =~= a.drop_first() + b);
        assert(vstd::utf8::encode_utf8(a + b) =~= vstd::utf8::encode_utf8(a)
            + vstd::utf8::encode_utf8(b));
    }
}

/// What a digit character stands for.
pub open spec fn digit_value(c: char) -> int {
    if '0' <= c <= '9' {
        c as int - '0' as int
    } else {
        c as int - 'a' as int + 10
    }
}

/// The number that digits stand for, the most significant first.
pub open spec fn number_read(digits: Seq<char>, base: int) -> int
    decreases digits.len(),
{
    if digits.len() == 0 {
        0
    } else {
        base * number_read(digits.drop_last(), base) + digit_value(digits.last())
    }
}

/// Whether all characters are decimal digits.
pub open spec fn all_decimal(text: Seq<char>) -> bool {
    forall|i: int| 0 <= i < text.len() ==> '0' <= #[trigger] text[i] <= '9'
}

/// Law: a number in decimal reads back as the number. It has digits only, at
/// least one, and a leading zero only if it is zero.
pub proof fn decimal_reads_back(value: nat)
    ensures
        number_read(decimal(value), 10) == value,
        decimal(value).len() >= 1,
        all_decimal(decimal(value)),
        value > 0 ==> decimal(value)[0] != '0',
    decreases value,
{
    let text = decimal(value);
    if value < 10 {
        assert(text.drop_last() =~= Seq::<char>::empty());
        assert(number_read(text.drop_last(), 10) == 0);
        assert(text.last() == digit(value as int));
    } else {
        decimal_reads_back(value / 10);
        assert(text.drop_last() =~= decimal(value / 10));
        assert(text.last() == digit((value % 10) as int));
    }
}

/// Law: a number in hex reads back as the number, as far as the digits go.
/// There are as many digits as asked for, and letters are lowercase.
pub proof fn hex_reads_back(value: nat, digits: nat)
    ensures
        number_read(hex(value, digits), 16) == value as int % vstd::arithmetic::power::pow(
            16,
            digits,
        ),
        hex(value, digits).len() == digits,
        forall|i: int|
            0 <= i < digits ==> ('0' <= #[trigger] hex(value, digits)[i] <= '9' || 'a' <= hex(
                value,
                digits,
            )[i] <= 'f'),
    decreases digits,
{
    reveal(vstd::arithmetic::power::pow);
    let text = hex(value, digits);
    if digits == 0 {
        assert(value as int % 1 == 0);
    } else {
        let fewer = (digits - 1) as nat;
        hex_reads_back(value / 16, fewer);
        vstd::arithmetic::power::lemma_pow_positive(16, fewer);
        vstd::arithmetic::div_mod::lemma_mod_breakdown(
            value as int,
            16,
            vstd::arithmetic::power::pow(16, fewer),
        );
        assert(text.drop_last() =~= hex(value / 16, fewer));
        assert(text.last() == digit((value % 16) as int));
        assert(digit_value(text.last()) == value % 16);
    }
}

/// Law: eight hex digits tell a 32-bit number in full.
pub proof fn eight_hex_digits_tell_the_number(value: u32)
    ensures
        hex(value as nat, 8).len() == 8,
        number_read(hex(value as nat, 8), 16) == value,
{
    hex_reads_back(value as nat, 8);
    assert(vstd::arithmetic::power::pow(16, 8) == 0x1_0000_0000) by {
        reveal(vstd::arithmetic::power::pow);
        assert(vstd::arithmetic::power::pow(16, 0) == 1);
        assert(vstd::arithmetic::power::pow(16, 1) == 0x10);
        assert(vstd::arithmetic::power::pow(16, 2) == 0x100);
        assert(vstd::arithmetic::power::pow(16, 3) == 0x1000);
        assert(vstd::arithmetic::power::pow(16, 4) == 0x1_0000);
        assert(vstd::arithmetic::power::pow(16, 5) == 0x10_0000);
        assert(vstd::arithmetic::power::pow(16, 6) == 0x100_0000);
        assert(vstd::arithmetic::power::pow(16, 7) == 0x1000_0000);
    }
}

/// Law: a number in decimal ends where something else than a digit follows, so
/// texts that differ in the number or in what follows it are different.
pub proof fn a_number_in_a_text_is_told_apart(a: nat, after_a: Seq<char>, b: nat, after_b: Seq<char>)
    requires
        decimal(a) + after_a == decimal(b) + after_b,
        after_a.len() > 0 ==> !('0' <= after_a[0] <= '9'),
        after_b.len() > 0 ==> !('0' <= after_b[0] <= '9'),
    ensures
        a == b,
        after_a == after_b,
{
    let (x, y) = (decimal(a), decimal(b));
    decimal_reads_back(a);
    decimal_reads_back(b);
    let whole = x + after_a;
    let other = y + after_b;
    assert(whole.len() == other.len());
    if x.len() < y.len() {
        assert(whole[x.len() as int] == after_a[0]);
        assert(other[x.len() as int] == y[x.len() as int]);
    }
    if y.len() < x.len() {
        assert(other[y.len() as int] == after_b[0]);
        assert(whole[y.len() as int] == x[y.len() as int]);
    }
    assert(x =~= whole.take(x.len() as int));
    assert(y =~= other.take(y.len() as int));
    assert(after_a =~= whole.skip(x.len() as int));
    assert(after_b =~= other.skip(y.len() as int));
}

/// Whether all characters are white space.
pub open spec fn all_white(text: Seq<char>) -> bool {
    forall|i: int| 0 <= i < text.len() ==> is_white(#[trigger] text[i])
}

proof fn lemma_leading_white(lead: Seq<char>, rest: Seq<char>)
    requires
        all_white(lead),
    ensures
        trimmed_start(lead + rest) == trimmed_start(rest),
    decreases lead.len(),
{
    if lead.len() == 0 {
        assert(lead + rest =~= rest);
    } else {
        let whole = lead + rest;
        assert(whole.first() == lead[0]);
        assert(whole.drop_first() =~= lead.drop_first() + rest);
        lemma_leading_white(lead.drop_first(), rest);
    }
}

proof fn lemma_trailing_white(rest: Seq<char>, tail: Seq<char>)
    requires
        all_white(tail),
    ensures
        trimmed_end(rest + tail) == trimmed_end(rest),
    decreases tail.len(),
{
    if tail.len() == 0 {
        assert(rest + tail =~= rest);
    } else {
        let whole = rest + tail;
        assert(whole.last() == tail[tail.len() - 1]);
        assert(whole.drop_last() =~= rest + tail.drop_last());
        lemma_trailing_white(rest, tail.drop_last());
    }
}

/// Law: trimming takes away the white space around a text and nothing of the
/// text, which may hold white space inside.
pub proof fn trimming_leaves_the_text(lead: Seq<char>, core: Seq<char>, tail: Seq<char>)
    requires
        all_white(lead),
        all_white(tail),
        core.len() > 0 ==> !is_white(core[0]) && !is_white(core[core.len() - 1]),
    ensures
        trimmed(lead + core + tail) == core,
{
    assert(lead + core + tail =~= lead + (core + tail));
    lemma_leading_white(lead, core + tail);
    if core.len() == 0 {
        assert(core + tail =~= tail + Seq::<char>::empty());
        lemma_leading_white(tail, Seq::empty());
        assert(core =~= Seq::<char>::empty());
    } else {
        assert((core + tail).first() == core[0]);
        lemma_trailing_white(core, tail);
    }
}

/// Law: the characters that count as white space are these.
pub proof fn white_space_is_these(c: char)
    ensures
        is_white(c) <==> {
            ||| c == ' ' || c == '\t' || c == '\n' || c == '\r' || c == '\u{b}' || c == '\u{c}'
            ||| c == '\u{85}' || c == '\u{a0}' || c == '\u{1680}' || c == '\u{2028}'
            ||| c == '\u{2029}' || c == '\u{202f}' || c == '\u{205f}' || c == '\u{3000}'
            ||| '\u{2000}' <= c <= '\u{200a}'
        },
{
}

} // verus!
