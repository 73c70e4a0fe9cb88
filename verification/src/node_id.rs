//! Node identity: compact on-wire ids and human-friendly names.
//!
//! Two identity types exist at different layers:
//!
//! * [`WireId`], the 32-bit identity that travels in frames.
//! * [`NodeId`], the human-friendly form a person types and sees, such as
//!   `alice-3f2a`: a chosen name and a 4-character hex suffix that keeps two
//!   `alice`s from colliding.
//!
//! A [`WireId`] is derived from the full `NodeId` string alone, so any node
//! that knows a peer's full name can compute the same wire id without a
//! directory service.

use crate::seen;
use crate::seen::fnv64;
use crate::text;
use crate::text::{push_decimal, push_hex};
use crate::trace;
use crate::trace::Trace;
use vstd::prelude::*;

verus! {

/// Compact 32-bit node identity used inside on-air frames.
///
/// Its view is the raw 32-bit value.
#[derive(Copy, Clone, Eq, PartialOrd, Ord, Hash, Debug)]
pub struct WireId(u32);

impl View for WireId {
    type V = u32;

    closed spec fn view(&self) -> u32 {
        self.0
    }
}

impl PartialEq for WireId {
    fn eq(&self, other: &Self) -> (same: bool) {
        self.0 == other.0
    }
}

impl vstd::std_specs::cmp::PartialEqSpecImpl for WireId {
    open spec fn obeys_eq_spec() -> bool {
        true
    }

    open spec fn eq_spec(&self, other: &Self) -> bool {
        self@ == other@
    }
}

/// The raw wire id of the node called `name`: the low 32 bits of the FNV-1a
/// hash of the name's UTF-8 bytes.
pub open spec fn id_of_name(name: Seq<char>) -> u32 {
    (seen::fnv(vstd::utf8::encode_utf8(name)) % 0x1_0000_0000) as u32
}

impl WireId {
    /// Creates a wire id from a raw 32-bit value.
    #[must_use]
    pub fn new(raw: u32) -> (id: Self)
        ensures
            id@ == raw,
    {
        Self(raw)
    }

    /// Derives the wire id of a node from its full display name.
    ///
    /// The same name always yields the same id on every platform.
    #[must_use]
    pub fn of_name(name: &str) -> (id: Self)
        ensures
            id@ == id_of_name(name@),
    {
        Self((fnv64(name.as_bytes()) % 0x1_0000_0000) as u32)
    }

    /// Returns the raw 32-bit value.
    #[must_use]
    pub fn get(self) -> (raw: u32)
        ensures
            raw == self@,
    {
        self.0
    }

    /// Returns the id as eight lowercase hex digits.
    #[must_use]
    pub fn to_hex(self) -> (digits: String)
        ensures
            digits@ == text::hex(self@ as nat, 8),
    {
        let mut digits = String::new();
        push_hex(&mut digits, self.0, 8);
        assert(digits@ =~= text::hex(self@ as nat, 8));
        digits
    }
}

/// Maximum length of the user-chosen name part, in bytes.
///
/// The full display form (name, `-` and 4 hex characters) then takes at most
/// 21 bytes.
pub const MAX_NAME_LEN: usize = 16;

/// Number of hex characters in the suffix of a node id.
pub const SUFFIX_LEN: usize = 4;

/// The characters that a chosen name is made of.
pub open spec fn is_name_char(c: char) -> bool {
    'a' <= c <= 'z' || '0' <= c <= '9' || c == '-'
}

/// The characters that a suffix is made of.
pub open spec fn is_suffix_char(c: char) -> bool {
    'a' <= c <= 'f' || '0' <= c <= '9'
}

/// The names that a person may choose: 1 to [`MAX_NAME_LEN`] characters of
/// `[a-z0-9-]`, with no `-` at either end.
pub open spec fn is_chosen_name(name: Seq<char>) -> bool {
    &&& 1 <= name.len() <= MAX_NAME_LEN
    &&& forall|i: int| 0 <= i < name.len() ==> is_name_char(#[trigger] name[i])
    &&& name.first() != '-'
    &&& name.last() != '-'
}

/// The full display forms: a chosen name, `-`, and four lowercase hex digits.
pub open spec fn is_display_form(full: Seq<char>) -> bool {
    &&& full.len() > SUFFIX_LEN
    &&& is_chosen_name(full.take(full.len() - SUFFIX_LEN - 1))
    &&& full[full.len() - SUFFIX_LEN - 1] == '-'
    &&& forall|i: int|
        full.len() - SUFFIX_LEN <= i < full.len() ==> is_suffix_char(#[trigger] full[i])
}

/// The display form of a node called `name` that drew `entropy`.
pub open spec fn display_form(name: Seq<char>, entropy: u32) -> Seq<char> {
    name.push('-') + text::hex(entropy as nat, SUFFIX_LEN as nat)
}

proof fn lemma_hex_is_suffix(value: nat, digits: nat)
    ensures
        text::hex(value, digits).len() == digits,
        forall|i: int| 0 <= i < digits ==> is_suffix_char(#[trigger] text::hex(value, digits)[i]),
    decreases digits,
{
    if digits > 0 {
        lemma_hex_is_suffix(value / 16, (digits - 1) as nat);
    }
}

/// A display form is five characters longer than the chosen name.
pub proof fn lemma_display_form_len(name: Seq<char>, entropy: u32)
    ensures
        display_form(name, entropy).len() == name.len() + 1 + SUFFIX_LEN,
{
    lemma_hex_is_suffix(entropy as nat, SUFFIX_LEN as nat);
}

/// Law: what [`NodeId::new`] builds from a valid name is a display form, so
/// [`NodeId::parse`] accepts it and gives the same id back.
pub proof fn a_new_id_parses_back(name: Seq<char>, entropy: u32)
    requires
        is_chosen_name(name),
    ensures
        is_display_form(display_form(name, entropy)),
{
    lemma_hex_is_suffix(entropy as nat, SUFFIX_LEN as nat);
    let full = display_form(name, entropy);
    assert(full.take(full.len() - SUFFIX_LEN - 1) =~= name);
    assert forall|i: int| full.len() - SUFFIX_LEN <= i < full.len() implies is_suffix_char(
        #[trigger] full[i],
    ) by {
        let suffix = text::hex(entropy as nat, SUFFIX_LEN as nat);
        assert(full[i] == suffix[i - name.len() - 1]);
    }
}

proof fn lemma_hex_of_four_digits(value: nat)
    ensures
        text::hex(value, 4) == seq![
            text::digit((value / 16 / 16 / 16 % 16) as int),
            text::digit((value / 16 / 16 % 16) as int),
            text::digit((value / 16 % 16) as int),
            text::digit((value % 16) as int),
        ],
{
    reveal_with_fuel(text::hex, 5);
    assert(text::hex(value, 4) =~= seq![
        text::digit((value / 16 / 16 / 16 % 16) as int),
        text::digit((value / 16 / 16 % 16) as int),
        text::digit((value / 16 % 16) as int),
        text::digit((value % 16) as int),
    ]);
}

proof fn lemma_low_sixteen_bits(value: nat)
    ensures
        value % 0x1_0000 == (value / 16 / 16 / 16 % 16) * 0x1000 + (value / 16 / 16 % 16) * 0x100 + (
        value / 16 % 16) * 0x10 + value % 16,
{
    let q1 = value / 16;
    let q2 = q1 / 16;
    let q3 = q2 / 16;
    let q4 = q3 / 16;
    assert(value == 0x1_0000 * q4 + (q3 % 16) * 0x1000 + (q2 % 16) * 0x100 + (q1 % 16) * 0x10
        + value % 16);
}

proof fn lemma_digit_tells_values_apart(a: nat, b: nat)
    requires
        a < 16,
        b < 16,
    ensures
        text::digit(a as int) == text::digit(b as int) ==> a == b,
{
}

proof fn lemma_hex_tells_values_apart(a: nat, b: nat)
    ensures
        text::hex(a, 4) == text::hex(b, 4) <==> a % 0x1_0000 == b % 0x1_0000,
{
    let (a0, a1, a2, a3) = (a / 16 / 16 / 16 % 16, a / 16 / 16 % 16, a / 16 % 16, a % 16);
    let (b0, b1, b2, b3) = (b / 16 / 16 / 16 % 16, b / 16 / 16 % 16, b / 16 % 16, b % 16);
    lemma_hex_of_four_digits(a);
    lemma_hex_of_four_digits(b);
    let x = text::hex(a, 4);
    let y = text::hex(b, 4);
    if x == y {
        assert(x[0] == y[0] && x[1] == y[1] && x[2] == y[2] && x[3] == y[3]);
        lemma_digit_tells_values_apart(a0, b0);
        lemma_digit_tells_values_apart(a1, b1);
        lemma_digit_tells_values_apart(a2, b2);
        lemma_digit_tells_values_apart(a3, b3);
    }
    assert(a % 0x1_0000 == b % 0x1_0000 <==> a0 == b0 && a1 == b1 && a2 == b2 && a3 == b3) by {
        lemma_low_sixteen_bits(a);
        lemma_low_sixteen_bits(b);
    }
}

/// Law: only the low 16 bits of the entropy count, and nodes that chose the
/// same name have the same id exactly when these bits agree.
pub proof fn the_suffix_tells_same_named_nodes_apart(name: Seq<char>, a: u32, b: u32)
    ensures
        display_form(name, a) == display_form(name, b) <==> a % 0x1_0000 == b % 0x1_0000,
{
    let x = text::hex(a as nat, SUFFIX_LEN as nat);
    let y = text::hex(b as nat, SUFFIX_LEN as nat);
    lemma_hex_tells_values_apart(a as nat, b as nat);
    if display_form(name, a) == display_form(name, b) {
        let start = name.len() as int + 1;
        assert(x =~= display_form(name, a).skip(start));
        assert(y =~= display_form(name, b).skip(start));
    }
}

/// Human-friendly node identity, such as `alice-3f2a`.
///
/// Its view is the display form.
#[derive(Eq, Hash, Debug)]
pub struct NodeId {
    full: String,
}

impl View for NodeId {
    type V = Seq<char>;

    closed spec fn view(&self) -> Seq<char> {
        self.full@
    }
}

impl Clone for NodeId {
    fn clone(&self) -> (copy: Self)
        ensures
            copy@ == self@,
    {
        proof {
            use_type_invariant(self);
        }
        Self { full: self.full.clone() }
    }
}

impl PartialEq for NodeId {
    fn eq(&self, other: &Self) -> (same: bool) {
        self.full == other.full
    }
}

impl vstd::std_specs::cmp::PartialEqSpecImpl for NodeId {
    open spec fn obeys_eq_spec() -> bool {
        true
    }

    open spec fn eq_spec(&self, other: &Self) -> bool {
        self@ == other@
    }
}

impl NodeId {
    #[verifier::type_invariant]
    spec fn is_well_formed(self) -> bool {
        is_display_form(self.full@)
    }

    /// Creates a node id from a chosen name and caller-provided entropy.
    ///
    /// The low 16 bits of `entropy` become the 4-character hex suffix.
    ///
    /// # Errors
    /// Returns [`NodeIdError`] if `name` is empty, longer than
    /// [`MAX_NAME_LEN`], contains characters outside `[a-z0-9-]`, or starts or
    /// ends with `-`.
    pub fn new(name: &str, entropy: u32) -> (made: Result<Self, NodeIdError>)
        ensures
            made is Ok <==> is_chosen_name(name@),
            made matches Ok(id) ==> id@ == display_form(name@, entropy),
    {
        if !validate_name(name) {
            return Err(NodeIdError::new());
        }
        let mut full = String::new();
        full.append(name);
        full.push('-');
        push_hex(&mut full, entropy, 4);
        assert(full@ =~= display_form(name@, entropy));
        proof {
            a_new_id_parses_back(name@, entropy);
        }
        Ok(Self { full })
    }

    /// Parses a full display form such as `alice-3f2a`.
    ///
    /// # Errors
    /// Returns [`NodeIdError`] if the string lacks the `-xxxx` hex suffix or
    /// the name part fails validation (see [`NodeId::new`]).
    pub fn parse(s: &str) -> (parsed: Result<Self, NodeIdError>)
        ensures
            parsed is Ok <==> is_display_form(s@),
            parsed matches Ok(id) ==> id@ == s@,
    {
        let len: usize = s.unicode_len();
        if len <= SUFFIX_LEN || len > MAX_NAME_LEN + 1 + SUFFIX_LEN {
            return Err(NodeIdError::new());
        }
        let dash: usize = len - SUFFIX_LEN - 1;
        if s.get_char(dash) != '-' {
            return Err(NodeIdError::new());
        }
        let mut i: usize = dash + 1;
        while i < len
            invariant
                dash == len - SUFFIX_LEN - 1,
                dash < i <= len == s@.len(),
                forall|j: int| dash < j < i ==> is_suffix_char(#[trigger] s@[j]),
            decreases len - i,
        {
            let c = s.get_char(i);
            if !(('a' <= c && c <= 'f') || ('0' <= c && c <= '9')) {
                assert(!is_suffix_char(s@[i as int]));
                return Err(NodeIdError::new());
            }
            i += 1;
        }
        if !validate_name(s.substring_char(0, dash)) {
            return Err(NodeIdError::new());
        }
        Ok(Self { full: s.to_owned() })
    }

    /// Returns the full display form, such as `alice-3f2a`.
    #[must_use]
    pub fn as_str(&self) -> (full: &str)
        ensures
            full@ == self@,
            is_display_form(self@),
    {
        proof {
            use_type_invariant(self);
        }
        self.full.as_str()
    }

    /// Derives the compact on-wire identity for this node.
    #[must_use]
    pub fn wire_id(&self) -> (id: WireId)
        ensures
            id@ == id_of_name(self@),
    {
        WireId::of_name(self.full.as_str())
    }
}

impl core::str::FromStr for NodeId {
    type Err = NodeIdError;

    fn from_str(s: &str) -> (parsed: Result<Self, NodeIdError>)
        ensures
            parsed is Ok <==> is_display_form(s@),
            parsed matches Ok(id) ==> id@ == s@,
    {
        Self::parse(s)
    }
}

fn validate_name(name: &str) -> (valid: bool)
    ensures
        valid == is_chosen_name(name@),
{
    let len: usize = name.unicode_len();
    if len == 0 || len > MAX_NAME_LEN {
        return false;
    }
    let mut i: usize = 0;
    while i < len
        invariant
            i <= len == name@.len(),
            forall|j: int| 0 <= j < i ==> is_name_char(#[trigger] name@[j]),
        decreases len - i,
    {
        let c = name.get_char(i);
        if !(('a' <= c && c <= 'z') || ('0' <= c && c <= '9') || c == '-') {
            assert(!is_name_char(name@[i as int]));
            return false;
        }
        i += 1;
    }
    name.get_char(0) != '-' && name.get_char(len - 1) != '-'
}

/// Failure to create or parse a [`NodeId`].
///
/// Names must be 1 to [`MAX_NAME_LEN`] bytes of `[a-z0-9-]`, must not start
/// or end with `-`, and the parsed form must end in a 4-character lowercase
/// hex suffix.
#[derive(Debug)]
pub struct NodeIdError {
    trace: Trace,
}

/// The sentence that explains a rejected node id.
pub open spec fn node_id_error_text() -> Seq<char> {
    "invalid node id: expected 1-"@ + text::decimal(MAX_NAME_LEN as nat)
        + " chars of [a-z0-9-] (no leading/trailing '-'), with a 4-hex-char suffix when parsing"@
}

impl NodeIdError {
    /// Whether the error holds a backtrace.
    pub closed spec fn is_traced(&self) -> bool {
        self.trace@
    }

    /// Makes the error. Whether it holds a backtrace rests on the environment.
    fn new() -> Self {
        Self { trace: Trace::capture() }
    }

    /// Explains the error in one sentence, and with the backtrace that was
    /// captured, if one was.
    #[must_use]
    pub fn message(&self) -> (message: String)
        ensures
            trace::explains(message@, node_id_error_text(), self.is_traced()),
    {
        let mut sentence = String::new();
        sentence.append("invalid node id: expected 1-");
        push_decimal(&mut sentence, MAX_NAME_LEN);
        sentence.append(
            " chars of [a-z0-9-] (no leading/trailing '-'), with a 4-hex-char suffix when parsing",
        );
        assert(sentence@ =~= node_id_error_text());
        self.trace.explain(sentence)
    }
}

/// Law: the wire id of a name is the low half of the hash of its UTF-8 bytes.
pub proof fn a_wire_id_is_the_low_half_of_the_hash(name: Seq<char>)
    ensures
        exists|high: int|
            0 <= high < 0x1_0000_0000 && seen::fnv(vstd::utf8::encode_utf8(name)) == #[trigger] (high
                * 0x1_0000_0000) + id_of_name(name),
{
    let hash = seen::fnv(vstd::utf8::encode_utf8(name)) as int;
    let high = hash / 0x1_0000_0000;
    assert(hash == high * 0x1_0000_0000 + id_of_name(name));
}

/// Law: a display form is the name, a dash, and four digits that read back as
/// the low half-word of the entropy.
pub proof fn a_display_form_tells_name_and_entropy(name: Seq<char>, entropy: u32)
    ensures
        ({
            let full = display_form(name, entropy);
            let len = name.len() as int;
            &&& full.len() == len + 5
            &&& full.take(len) == name
            &&& full[len] == '-'
            &&& text::number_read(full.skip(len + 1), 16) == entropy % 0x1_0000
        }),
{
    let full = display_form(name, entropy);
    let len = name.len() as int;
    text::hex_reads_back(entropy as nat, 4);
    assert(vstd::arithmetic::power::pow(16, 4) == 0x1_0000) by {
        reveal(vstd::arithmetic::power::pow);
        assert(vstd::arithmetic::power::pow(16, 0) == 1);
        assert(vstd::arithmetic::power::pow(16, 1) == 0x10);
        assert(vstd::arithmetic::power::pow(16, 2) == 0x100);
        assert(vstd::arithmetic::power::pow(16, 3) == 0x1000);
    }
    assert(full.take(len) =~= name);
    assert(full.skip(len + 1) =~= text::hex(entropy as nat, 4));
}

/// Law: the names that a person may choose are those of 1 to 16 letters, digits
/// and dashes without a dash at either end.
pub proof fn names_to_choose_are_these(name: Seq<char>)
    ensures
        is_chosen_name(name) <==> {
            &&& name.len() > 0
            &&& name.len() <= 16
            &&& forall|i: int|
                0 <= i < name.len() ==> "abcdefghijklmnopqrstuvwxyz0123456789-"@.contains(
                    #[trigger] name[i],
                )
            &&& name[0] != '-'
            &&& name[name.len() - 1] != '-'
        },
{
    let allowed = "abcdefghijklmnopqrstuvwxyz0123456789-"@;
    reveal_strlit("abcdefghijklmnopqrstuvwxyz0123456789-");
    assert forall|c: char| is_name_char(c) <==> #[trigger] allowed.contains(c) by {
        lemma_name_chars_are_listed(c);
    }
}

proof fn lemma_name_chars_are_listed(c: char)
    ensures
        is_name_char(c) <==> "abcdefghijklmnopqrstuvwxyz0123456789-"@.contains(c),
{
    let allowed = "abcdefghijklmnopqrstuvwxyz0123456789-"@;
    reveal_strlit("abcdefghijklmnopqrstuvwxyz0123456789-");
    if is_name_char(c) {
        let at = if c == '-' {
            36int
        } else if '0' <= c <= '9' {
            26 + (c as int - '0' as int)
        } else {
            c as int - 'a' as int
        };
        assert(allowed[at] == c);
    }
    if allowed.contains(c) {
        let i = choose|i: int| 0 <= i < allowed.len() && allowed[i] == c;
        assert(is_name_char(allowed[i]));
    }
}

/// A suffix character is the digit of the value that it stands for.
proof fn lemma_suffix_char_is_a_digit(c: char)
    requires
        is_suffix_char(c),
    ensures
        0 <= text::digit_value(c) < 16,
        text::digit(text::digit_value(c)) == c,
{
}

/// Law: a text is parsed as a node id exactly if it is the display form of a
/// name that a person may choose.
pub proof fn exactly_display_forms_are_parsed(full: Seq<char>)
    ensures
        is_display_form(full) <==> exists|name: Seq<char>, entropy: u32|
            is_chosen_name(name) && full == #[trigger] display_form(name, entropy),
{
    if is_display_form(full) {
        let at = full.len() - 5;
        let name = full.take(at);
        let (a, b, c, d) = (full[at + 1], full[at + 2], full[at + 3], full[at + 4]);
        lemma_suffix_char_is_a_digit(a);
        lemma_suffix_char_is_a_digit(b);
        lemma_suffix_char_is_a_digit(c);
        lemma_suffix_char_is_a_digit(d);
        let (p, q, r, s) = (
            text::digit_value(a),
            text::digit_value(b),
            text::digit_value(c),
            text::digit_value(d),
        );
        let entropy = (p * 0x1000 + q * 0x100 + r * 0x10 + s) as u32;
        lemma_hex_of_four_digits(entropy as nat);
        assert(entropy as nat % 16 == s);
        assert(entropy as nat / 16 == p * 0x100 + q * 0x10 + r);
        assert(entropy as nat / 16 / 16 == p * 0x10 + q);
        assert(entropy as nat / 16 / 16 / 16 == p);
        assert(full =~= display_form(name, entropy));
    }
    if exists|name: Seq<char>, entropy: u32|
        is_chosen_name(name) && full == #[trigger] display_form(name, entropy) {
        let (name, entropy) = choose|name: Seq<char>, entropy: u32|
            is_chosen_name(name) && full == #[trigger] display_form(name, entropy);
        a_new_id_parses_back(name, entropy);
    }
}

/// Law: two wire ids are equal exactly if their values are.
pub proof fn wire_ids_are_equal_by_value(a: WireId, b: WireId)
    ensures
        vstd::std_specs::cmp::PartialEqSpec::eq_spec(&a, &b) <==> a@ == b@,
{
}

/// Law: two node ids are equal exactly if their display forms are.
pub proof fn node_ids_are_equal_by_name(a: NodeId, b: NodeId)
    ensures
        vstd::std_specs::cmp::PartialEqSpec::eq_spec(&a, &b) <==> a@ == b@,
{
}

} // verus!
