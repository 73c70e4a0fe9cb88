//! Morse-code text composition.
//!
//! Turns a two-button input scheme (**dot**, **dash**, and pause-driven letter
//! and word boundaries) into decoded text, capped at a fixed length. The
//! caller feeds discrete [`Symbol`]s and pause events; all timing decisions
//! live in the caller. [`morse_codec`] decodes the letters.

use morse_codec::decoder::{Decoder, MorseDecoder};
use morse_codec::MorseSignal;
use vstd::prelude::*;
use vstd::utf8;

verus! {

/// A single morse element entered by the operator.
#[derive(Copy, Clone, PartialEq, Eq, Structural, Debug)]
pub enum Symbol {
    /// A `dit` (`.`).
    Dot,
    /// A `dah` (`-`).
    Dash,
}

/// Maximum elements in a morse letter: the decoder keeps no more.
pub const MAX_MORSE: usize = 6;

/// The decoder of `morse_codec`, as an opaque type.
#[verifier::external_type_specification]
#[verifier::external_body]
pub struct ExMorseDecoder<const MSG_MAX: usize>(MorseDecoder<MSG_MAX>);

/// The elements of the letter that a decoder holds, dashes as `true`.
pub uninterp spec fn elements_held(decoder: MorseDecoder<1>) -> Seq<bool>;

/// The character that a decoder added to its message last.
pub uninterp spec fn last_decoded(decoder: MorseDecoder<1>) -> u8;

/// The character that `morse_codec` decodes these elements to, as its ASCII
/// code.
pub uninterp spec fn morse_code(elements: Seq<bool>) -> u8;

/// The elements of a letter after one more, of which no more than
/// [`MAX_MORSE`] are kept.
pub open spec fn with_element(elements: Seq<bool>, symbol: Symbol) -> Seq<bool> {
    if elements.len() < MAX_MORSE {
        elements.push(symbol == Symbol::Dash)
    } else {
        elements
    }
}

/// `Decoder::new` and `build`: claims that a new decoder holds no elements.
#[verifier::external_body]
fn new_decoder() -> (decoder: MorseDecoder<1>)
    ensures
        elements_held(decoder) == Seq::<bool>::empty(),
{
    Decoder::<1>::new().build()
}

/// `MorseDecoder::add_signal_to_character`: claims that the element is
/// appended to those of the letter, unless there are [`MAX_MORSE`] already.
#[verifier::external_body]
fn add_signal(decoder: &mut MorseDecoder<1>, symbol: Symbol)
    ensures
        elements_held(*final(decoder)) == with_element(elements_held(*old(decoder)), symbol),
{
    let signal = match symbol {
        Symbol::Dot => MorseSignal::Short,
        Symbol::Dash => MorseSignal::Long,
    };
    decoder.add_signal_to_character(Some(signal));
}

/// `MorseDecoder::add_current_char_to_message`: claims that the letter is
/// decoded, a function of its elements alone, and that none are held after
/// that. Elements decode to a printable ASCII character other than a space.
#[verifier::external_body]
fn decode_letter(decoder: &mut MorseDecoder<1>)
    ensures
        elements_held(*final(decoder)) == Seq::<bool>::empty(),
        last_decoded(*final(decoder)) == morse_code(elements_held(*old(decoder))),
        elements_held(*old(decoder)).len() > 0 ==> 33 <= last_decoded(*final(decoder)) <= 126,
{
    decoder.add_current_char_to_message();
}

/// `MorseDecoder::get_last_decoded_char`: claims that the result is the
/// character that was added to the message last.
#[verifier::external_body]
fn decoded_char(decoder: &MorseDecoder<1>) -> (code: u8)
    ensures
        code == last_decoded(*decoder),
{
    decoder.get_last_decoded_char()
}

/// A message being composed: its text, and whether a word space was just
/// added.
#[verifier::ext_equal]
pub struct DraftView {
    /// The text so far.
    pub text: Seq<char>,
    /// A word space is already pending, so repeated word gaps do not stack.
    pub space_pending: bool,
}

/// The draft after a decoded letter, which is ignored once `max` characters
/// are there.
pub open spec fn with_letter(draft: DraftView, letter: char, max: nat) -> DraftView {
    if draft.text.len() < max {
        DraftView { text: draft.text.push(letter), ..draft }
    } else {
        draft
    }
}

/// The draft after a word gap: one space, unless one is pending, the text is
/// empty or `max` characters are there.
pub open spec fn with_space(draft: DraftView, max: nat) -> DraftView {
    if !draft.space_pending && 0 < draft.text.len() < max {
        DraftView { text: draft.text.push(' '), space_pending: true }
    } else {
        draft
    }
}

/// Text without a leading space and without two spaces in a row.
pub open spec fn is_tidy(text: Seq<char>) -> bool {
    &&& text.len() > 0 ==> text[0] != ' '
    &&& forall|i: int| 0 < i < text.len() ==> !(text[i - 1] == ' ' && #[trigger] text[i] == ' ')
}

/// Text made of decoded letters and spaces, so one byte per character.
pub open spec fn is_printable(text: Seq<char>) -> bool {
    forall|i: int| 0 <= i < text.len() ==> ' ' <= #[trigger] text[i] <= '~'
}

/// Law: a longer pause adds no second space.
pub proof fn repeated_word_gaps_do_not_stack(draft: DraftView, max: nat)
    ensures
        with_space(with_space(draft, max), max) == with_space(draft, max),
{
}

/// Law: neither letters nor word gaps grow a draft past its cap, and a full
/// draft stays as it is.
pub proof fn the_cap_holds(draft: DraftView, letter: char, max: nat)
    requires
        draft.text.len() <= max,
    ensures
        with_letter(draft, letter, max).text.len() <= max,
        with_space(draft, max).text.len() <= max,
        draft.text.len() == max ==> with_letter(draft, letter, max) == draft,
        draft.text.len() == max ==> with_space(draft, max) == draft,
{
}

/// The message being composed, in decoded characters.
///
/// `MAX` is the maximum number of characters kept. Its view is a
/// [`DraftView`].
#[derive(Debug)]
pub struct Draft<const MAX: usize> {
    text: String,
    len: usize,
    space_pending: bool,
}

impl<const MAX: usize> View for Draft<MAX> {
    type V = DraftView;

    closed spec fn view(&self) -> DraftView {
        DraftView { text: self.text@, space_pending: self.space_pending }
    }
}

impl<const MAX: usize> Draft<MAX> {
    #[verifier::type_invariant]
    spec fn is_within_cap(self) -> bool {
        self.len == self.text@.len() && self.len <= MAX
    }

    /// Creates an empty draft.
    #[must_use]
    pub fn new() -> (draft: Self)
        ensures
            draft@ == (DraftView { text: Seq::empty(), space_pending: false }),
    {
        let text = String::new();
        assert(text@ =~= Seq::<char>::empty());
        Self { text, len: 0, space_pending: false }
    }

    /// Returns the text so far.
    #[must_use]
    pub fn text(&self) -> (text: &str)
        ensures
            text@ == self@.text,
            text@.len() <= MAX,
    {
        proof {
            use_type_invariant(self);
        }
        self.text.as_str()
    }

    /// Returns `true` if no character was added yet.
    #[must_use]
    pub fn is_empty(&self) -> (empty: bool)
        ensures
            empty == (self@.text.len() == 0),
    {
        proof {
            use_type_invariant(self);
        }
        self.len == 0
    }

    /// Returns `true` once `MAX` characters are there.
    #[must_use]
    pub fn is_full(&self) -> (full: bool)
        ensures
            full == (self@.text.len() >= MAX),
    {
        proof {
            use_type_invariant(self);
        }
        self.len >= MAX
    }

    /// Returns the draft with a decoded letter added, if there is room.
    #[must_use]
    pub fn letter(self, letter: char) -> (draft: Self)
        ensures
            draft@ == with_letter(self@, letter, MAX as nat),
    {
        proof {
            use_type_invariant(&self);
        }
        if self.len >= MAX {
            return self;
        }
        let mut text = self.text;
        text.push(letter);
        Self { text, len: self.len + 1, space_pending: self.space_pending }
    }

    /// Returns the draft with a word space added, if one is in order.
    #[must_use]
    pub fn space(self) -> (draft: Self)
        ensures
            draft@ == with_space(self@, MAX as nat),
    {
        proof {
            use_type_invariant(&self);
        }
        if self.space_pending || self.len == 0 || self.len >= MAX {
            return self;
        }
        let mut text = self.text;
        text.push(' ');
        Self { text, len: self.len + 1, space_pending: true }
    }

    /// Returns the draft with no word space pending, as once a new letter has
    /// begun.
    #[must_use]
    pub fn letter_begun(self) -> (draft: Self)
        ensures
            draft@ == (DraftView { space_pending: false, ..self@ }),
    {
        proof {
            use_type_invariant(&self);
        }
        Self { text: self.text, len: self.len, space_pending: false }
    }
}

impl<const MAX: usize> Default for Draft<MAX> {
    fn default() -> (draft: Self)
        ensures
            draft@ == (DraftView { text: Seq::empty(), space_pending: false }),
    {
        Self::new()
    }
}

/// A composer's state: the draft, and the elements of the letter being
/// entered, dashes as `true`.
#[verifier::ext_equal]
pub struct ComposerView {
    /// The text so far.
    pub draft: DraftView,
    /// The elements entered since the last committed letter.
    pub elements: Seq<bool>,
}

/// The state with nothing entered.
pub open spec fn blank() -> ComposerView {
    ComposerView {
        draft: DraftView { text: Seq::empty(), space_pending: false },
        elements: Seq::empty(),
    }
}

/// The state after a dot or dash, which is ignored once the text is full.
pub open spec fn with_symbol(state: ComposerView, symbol: Symbol, max: nat) -> ComposerView {
    if state.draft.text.len() >= max {
        state
    } else {
        ComposerView {
            draft: DraftView { space_pending: false, ..state.draft },
            elements: with_element(state.elements, symbol),
        }
    }
}

/// The state after a letter-length pause.
pub open spec fn with_letter_gap(state: ComposerView, max: nat) -> ComposerView {
    if state.elements.len() > 0 {
        ComposerView {
            draft: with_letter(state.draft, morse_code(state.elements) as char, max),
            elements: Seq::empty(),
        }
    } else {
        state
    }
}

/// The state after a word-length pause.
pub open spec fn with_word_gap(state: ComposerView, max: nat) -> ComposerView {
    let committed = with_letter_gap(state, max);
    ComposerView { draft: with_space(committed.draft, max), ..committed }
}

/// Accumulates decoded text from dot/dash input and pause boundaries.
///
/// `MAX` is the maximum number of decoded characters kept: set it to the
/// transport payload budget. Input beyond `MAX` is ignored. Its view is a
/// [`ComposerView`].
pub struct Composer<const MAX: usize> {
    decoder: MorseDecoder<1>,
    draft: Draft<MAX>,
    /// At least one symbol has been entered since the last committed letter.
    letter_in_progress: bool,
}

impl<const MAX: usize> View for Composer<MAX> {
    type V = ComposerView;

    closed spec fn view(&self) -> ComposerView {
        ComposerView { draft: self.draft@, elements: elements_held(self.decoder) }
    }
}

impl<const MAX: usize> Composer<MAX> {
    /// A letter in progress has elements and room in the text, and the text is
    /// tidy: a space ends it only while a letter or a pending space accounts
    /// for that.
    #[verifier::type_invariant]
    spec fn is_well_formed(self) -> bool {
        let text = self.draft@.text;
        &&& self.letter_in_progress == (elements_held(self.decoder).len() > 0)
        &&& elements_held(self.decoder).len() <= MAX_MORSE
        &&& text.len() <= MAX
        &&& self.letter_in_progress ==> text.len() < MAX
        &&& is_tidy(text)
        &&& is_printable(text)
        &&& text.len() > 0 && text.last() == ' ' ==> self.draft@.space_pending
            || self.letter_in_progress
    }

    /// Creates an empty composer.
    #[must_use]
    pub fn new() -> (composer: Self)
        ensures
            composer@ == blank(),
    {
        let composer = Self {
            decoder: new_decoder(),
            draft: Draft::new(),
            letter_in_progress: false,
        };
        assert(composer@ =~= blank());
        composer
    }

    /// Takes the state out, leaving a blank composer.
    fn take(&mut self) -> (taken: Self)
        ensures
            taken == *old(self),
            final(self)@ == blank(),
    {
        let mut taken = Self::new();
        core::mem::swap(self, &mut taken);
        taken
    }

    /// Adds a dot or dash to the letter currently being entered.
    ///
    /// Ignored once the message is full.
    pub fn symbol(&mut self, symbol: Symbol)
        ensures
            final(self)@ == with_symbol(old(self)@, symbol, MAX as nat),
    {
        if self.draft.is_full() {
            return;
        }
        let taken = self.take();
        proof {
            use_type_invariant(&taken);
        }
        let Self { mut decoder, draft, letter_in_progress: _ } = taken;
        add_signal(&mut decoder, symbol);
        *self = Self { decoder, draft: draft.letter_begun(), letter_in_progress: true };
    }

    /// Commits the in-progress letter; call after a letter-length pause.
    ///
    /// A no-op if no symbols have been entered since the last commit.
    pub fn letter_gap(&mut self)
        ensures
            final(self)@ == with_letter_gap(old(self)@, MAX as nat),
    {
        proof {
            use_type_invariant(&*self);
        }
        if self.letter_in_progress {
            let taken = self.take();
            let Self { mut decoder, draft, letter_in_progress: _ } = taken;
            decode_letter(&mut decoder);
            let code: u8 = decoded_char(&decoder);
            let ghost before = draft@.text;
            let draft = draft.letter(code as char);
            assert(draft@.text =~= before.push(code as char));
            *self = Self { decoder, draft, letter_in_progress: false };
        }
    }

    /// Inserts a single word space; call after a word-length pause.
    ///
    /// Commits any in-progress letter first. Never produces a leading space, a
    /// doubled space, or a trailing space past the cap.
    pub fn word_gap(&mut self)
        ensures
            final(self)@ == with_word_gap(old(self)@, MAX as nat),
    {
        self.letter_gap();
        let taken = self.take();
        proof {
            use_type_invariant(&taken);
        }
        let Self { decoder, draft, letter_in_progress } = taken;
        *self = Self { decoder, draft: draft.space(), letter_in_progress };
    }

    /// Returns the decoded text entered so far: one byte per character, never
    /// more than `MAX` of them, with no leading and no doubled space.
    #[must_use]
    pub fn message(&self) -> (text: &str)
        ensures
            text@ == self@.draft.text,
            text@.len() <= MAX,
            is_tidy(text@),
            is_printable(text@),
            utf8::encode_utf8(text@).len() == text@.len(),
    {
        proof {
            use_type_invariant(self);
            assert(utf8::is_ascii_chars(self@.draft.text));
            utf8::is_ascii_chars_encode_utf8(self@.draft.text);
        }
        self.draft.text()
    }

    /// Returns `true` if nothing has been entered yet.
    #[must_use]
    pub fn is_empty(&self) -> (empty: bool)
        ensures
            empty == (self@.draft.text.len() == 0 && self@.elements.len() == 0),
    {
        proof {
            use_type_invariant(self);
        }
        self.draft.is_empty() && !self.letter_in_progress
    }

    /// Discards the whole message, the letter in progress with it.
    pub fn clear(&mut self)
        ensures
            final(self)@ == blank(),
    {
        let _discarded = self.take();
    }
}

impl<const MAX: usize> Default for Composer<MAX> {
    fn default() -> (composer: Self)
        ensures
            composer@ == blank(),
    {
        Self::new()
    }
}

/// The elements that symbols stand for, dashes as `true`.
pub open spec fn elements_of(symbols: Seq<Symbol>) -> Seq<bool> {
    symbols.map_values(|symbol: Symbol| symbol is Dash)
}

/// The state after these symbols, with no pause between them.
pub open spec fn with_symbols(state: ComposerView, symbols: Seq<Symbol>, max: nat) -> ComposerView
    decreases symbols.len(),
{
    if symbols.len() == 0 {
        state
    } else {
        with_symbol(with_symbols(state, symbols.drop_last(), max), symbols.last(), max)
    }
}

proof fn lemma_symbols_are_held(state: ComposerView, symbols: Seq<Symbol>, max: nat)
    requires
        state.elements.len() == 0,
        state.draft.text.len() < max,
        symbols.len() <= 6,
    ensures
        with_symbols(state, symbols, max).elements == elements_of(symbols),
        with_symbols(state, symbols, max).draft.text == state.draft.text,
        symbols.len() > 0 ==> !with_symbols(state, symbols, max).draft.space_pending,
    decreases symbols.len(),
{
    if symbols.len() == 0 {
        assert(elements_of(symbols) =~= state.elements);
    } else {
        lemma_symbols_are_held(state, symbols.drop_last(), max);
        assert(elements_of(symbols) =~= elements_of(symbols.drop_last()).push(
            symbols.last() is Dash,
        ));
    }
}

/// Law: one to six dots and dashes and a pause add to the text the character
/// that they stand for, in the order in which they were entered, and nothing
/// else. A longer pause adds a space after it, if there is room.
pub proof fn a_keyed_letter_is_added(state: ComposerView, symbols: Seq<Symbol>, max: nat)
    requires
        state.elements.len() == 0,
        state.draft.text.len() < max,
        1 <= symbols.len() <= 6,
    ensures
        ({
            let keyed = with_symbols(state, symbols, max);
            let letter = morse_code(elements_of(symbols)) as char;
            let text = state.draft.text.push(letter);
            &&& keyed.draft.text == state.draft.text
            &&& with_letter_gap(keyed, max).draft.text == text
            &&& with_letter_gap(keyed, max).elements.len() == 0
            &&& with_word_gap(keyed, max).draft.text == (if text.len() < max {
                text.push(' ')
            } else {
                text
            })
            &&& with_word_gap(keyed, max).elements.len() == 0
            &&& with_word_gap(with_letter_gap(keyed, max), max) == with_word_gap(keyed, max)
        }),
{
    lemma_symbols_are_held(state, symbols, max);
}

/// Law: pauses with no letter in progress add nothing but one space, and that
/// only after a letter and where there is room.
pub proof fn pauses_add_one_space_at_most(state: ComposerView, max: nat)
    requires
        state.elements.len() == 0,
    ensures
        with_letter_gap(state, max) == state,
        with_word_gap(state, max).draft.text == state.draft.text || with_word_gap(
            state,
            max,
        ).draft.text == state.draft.text.push(' '),
        with_word_gap(state, max).draft.text == state.draft.text.push(' ') <==> {
            &&& 0 < state.draft.text.len() < max
            &&& !state.draft.space_pending
        },
        with_word_gap(with_word_gap(state, max), max) == with_word_gap(state, max),
{
    assert(state.draft.text.push(' ').len() != state.draft.text.len());
}

/// Law: a full text takes no more symbols, and a letter keeps no more than six.
pub proof fn what_is_too_much_is_ignored(state: ComposerView, symbol: Symbol, max: nat)
    ensures
        state.draft.text.len() >= max ==> with_symbol(state, symbol, max) == state,
        state.elements.len() >= 6 ==> with_symbol(state, symbol, max).elements == state.elements,
        with_symbol(state, symbol, max).draft.text == state.draft.text,
{
}

} // verus!
