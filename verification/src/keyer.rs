//! The morse keyer: button gestures and pauses become composed messages.
//!
//! The caller reports gestures ([`Keyer::on_input`]) and idle timeouts
//! ([`Keyer::on_idle`]), performs the feedback and sends that each step asks
//! for, and arms its idle timer for [`Keyer::pending`].

use crate::morse;
use crate::morse::{Composer, ComposerView, Symbol, MAX_MORSE};
use vstd::prelude::*;
use vstd::utf8;

verus! {

/// A press longer than this is a send or a clear, not a dot or dash.
pub const HOLD_MILLIS: u64 = 600;

/// Settle time after a button is released before watching it again.
pub const DEBOUNCE_MILLIS: u64 = 15;

/// Idle this long after a symbol: commit the current letter.
pub const LETTER_GAP_MILLIS: u64 = 800;

/// Idle this long after a symbol: also insert a word space.
pub const WORD_GAP_MILLIS: u64 = 2000;

/// A button gesture.
#[derive(Copy, Clone, PartialEq, Eq, Structural, Debug)]
pub enum InputEvent {
    /// Button A tap.
    Dot,
    /// Button B tap.
    Dash,
    /// Button A hold: finish and send.
    Send,
    /// Button B hold: clear the message.
    Clear,
}

/// What the armed idle timer will do when it fires.
#[derive(Copy, Clone, PartialEq, Eq, Structural, Debug)]
pub enum Phase {
    /// Commit the in-progress letter.
    Letter,
    /// Insert a word space.
    Word,
}

/// Something to flash on the LED matrix.
#[derive(Copy, Clone, PartialEq, Eq, Structural, Debug)]
pub enum Show {
    /// A dot glyph.
    Dot,
    /// A dash glyph.
    Dash,
    /// A decoded letter, as its ASCII byte.
    Char(u8),
    /// A rejected press: the current letter is already at the morse maximum.
    Error,
    /// The composed message was sent.
    Sent,
    /// The composed message was cleared.
    Cleared,
}

/// The time that the idle timer runs in a phase, in milliseconds.
pub open spec fn idle_time(phase: Phase) -> int {
    match phase {
        Phase::Letter => LETTER_GAP_MILLIS as int,
        Phase::Word => WORD_GAP_MILLIS - LETTER_GAP_MILLIS,
    }
}

/// Law: a letter is committed 800 ms after its last symbol, and the word ends
/// 2000 ms after it.
pub proof fn letters_and_words_end_in_time()
    ensures
        idle_time(Phase::Letter) == 800,
        idle_time(Phase::Letter) + idle_time(Phase::Word) == 2000,
        HOLD_MILLIS == 600,
        DEBOUNCE_MILLIS == 15,
{
}

/// How long the idle timer runs in a phase, in milliseconds. The word phase is
/// measured from the letter commit.
#[must_use]
pub fn idle_millis(phase: Phase) -> (millis: u64)
    ensures
        millis == (match phase {
            Phase::Letter => LETTER_GAP_MILLIS,
            Phase::Word => (WORD_GAP_MILLIS - LETTER_GAP_MILLIS) as u64,
        }),
        millis == idle_time(phase),
{
    match phase {
        Phase::Letter => LETTER_GAP_MILLIS,
        Phase::Word => WORD_GAP_MILLIS - LETTER_GAP_MILLIS,
    }
}

/// What a step asks of the caller.
#[derive(Debug)]
pub struct Step {
    /// Flash these, in order.
    pub shows: Vec<Show>,
    /// Whether to beep for an entered element.
    pub sidetone: bool,
    /// Broadcast this message.
    pub send: Option<String>,
}

/// What a [`Step`] says.
pub struct StepView {
    pub shows: Seq<Show>,
    pub sidetone: bool,
    pub send: Option<Seq<char>>,
}

impl View for Step {
    type V = StepView;

    open spec fn view(&self) -> StepView {
        StepView {
            shows: self.shows@,
            sidetone: self.sidetone,
            send: match self.send {
                Some(message) => Some(message@),
                None => None,
            },
        }
    }
}

/// A keyer's state.
#[verifier::ext_equal]
pub struct KeyerView {
    /// The text and the letter being decoded.
    pub composer: ComposerView,
    /// The elements of the letter being entered, dashes as `true`.
    pub elements: Seq<bool>,
    /// What the idle timer is armed for.
    pub pending: Option<Phase>,
}

/// The state with nothing entered.
pub open spec fn idle() -> KeyerView {
    KeyerView { composer: morse::blank(), elements: Seq::empty(), pending: None }
}

/// The state after the letter in progress, if there is one, is committed.
pub open spec fn committed(state: KeyerView, max: nat) -> KeyerView {
    if state.elements.len() == 0 {
        state
    } else {
        KeyerView {
            composer: morse::with_letter_gap(state.composer, max),
            elements: Seq::empty(),
            ..state
        }
    }
}

/// What committing flashes: the last character of the text.
pub open spec fn commit_shows(state: KeyerView, max: nat) -> Seq<Show> {
    let text = committed(state, max).composer.draft.text;
    if state.elements.len() == 0 || text.len() == 0 {
        Seq::empty()
    } else {
        seq![Show::Char(text.last() as u8)]
    }
}

/// Whether nothing has been entered.
pub open spec fn is_blank(composer: ComposerView) -> bool {
    composer.draft.text.len() == 0 && composer.elements.len() == 0
}

/// The state after a dot or dash.
pub open spec fn keyed(state: KeyerView, symbol: Symbol, max: nat) -> KeyerView {
    if state.elements.len() >= MAX_MORSE {
        KeyerView { pending: Some(Phase::Letter), ..state }
    } else {
        KeyerView {
            composer: morse::with_symbol(state.composer, symbol, max),
            elements: state.elements.push(symbol == Symbol::Dash),
            pending: Some(Phase::Letter),
        }
    }
}

/// The state after a gesture.
pub open spec fn after_input(state: KeyerView, event: InputEvent, max: nat) -> KeyerView {
    match event {
        InputEvent::Dot => keyed(state, Symbol::Dot, max),
        InputEvent::Dash => keyed(state, Symbol::Dash, max),
        InputEvent::Send => idle(),
        InputEvent::Clear => idle(),
    }
}

/// What a gesture asks of the caller.
///
/// A letter past the morse maximum is flagged instead of silently dropped: the
/// previous letter never got its pause, and the two have merged.
pub open spec fn input_step(state: KeyerView, event: InputEvent, max: nat) -> StepView {
    match event {
        InputEvent::Send => {
            let composer = committed(state, max).composer;
            if is_blank(composer) {
                StepView { shows: commit_shows(state, max), sidetone: false, send: None }
            } else {
                StepView {
                    shows: commit_shows(state, max).push(Show::Sent),
                    sidetone: false,
                    send: Some(composer.draft.text),
                }
            }
        },
        InputEvent::Clear => StepView {
            shows: if is_blank(state.composer) && state.elements.len() == 0 {
                Seq::empty()
            } else {
                seq![Show::Cleared]
            },
            sidetone: false,
            send: None,
        },
        _ => if state.elements.len() >= MAX_MORSE {
            StepView { shows: seq![Show::Error], sidetone: false, send: None }
        } else {
            StepView {
                shows: seq![
                    if event == InputEvent::Dash {
                        Show::Dash
                    } else {
                        Show::Dot
                    },
                ],
                sidetone: true,
                send: None,
            }
        },
    }
}

/// The state after the idle timer fired.
pub open spec fn after_idle(state: KeyerView, max: nat) -> KeyerView {
    match state.pending {
        Some(Phase::Letter) => KeyerView { pending: Some(Phase::Word), ..committed(state, max) },
        Some(Phase::Word) => KeyerView {
            composer: morse::with_word_gap(state.composer, max),
            pending: None,
            ..state
        },
        None => state,
    }
}

/// What the idle timer asks of the caller.
pub open spec fn idle_step(state: KeyerView, max: nat) -> StepView {
    StepView {
        shows: if state.pending == Some(Phase::Letter) {
            commit_shows(state, max)
        } else {
            Seq::empty()
        },
        sidetone: false,
        send: None,
    }
}

/// Composes messages of at most `MAX` characters from gestures and pauses.
///
/// Its view is a [`KeyerView`].
pub struct Keyer<const MAX: usize> {
    composer: Composer<MAX>,
    elements: Vec<bool>,
    pending: Option<Phase>,
}

impl<const MAX: usize> View for Keyer<MAX> {
    type V = KeyerView;

    closed spec fn view(&self) -> KeyerView {
        KeyerView {
            composer: self.composer@,
            elements: self.elements@,
            pending: self.pending,
        }
    }
}

impl<const MAX: usize> Keyer<MAX> {
    /// Creates an idle keyer.
    #[must_use]
    pub fn new() -> (keyer: Self)
        ensures
            keyer@ == idle(),
    {
        let keyer = Self { composer: Composer::new(), elements: Vec::new(), pending: None };
        assert(keyer@ =~= idle());
        keyer
    }

    /// Returns what the idle timer is to be armed for, `None` for not at all.
    #[must_use]
    pub fn pending(&self) -> (pending: Option<Phase>)
        ensures
            pending == self@.pending,
    {
        self.pending
    }

    /// Returns the text composed so far.
    #[must_use]
    pub fn text(&self) -> (text: &str)
        ensures
            text@ == self@.composer.draft.text,
            text@.len() <= MAX,
    {
        self.composer.message()
    }

    /// Returns the elements of the letter being entered, as dots and dashes.
    #[must_use]
    pub fn pattern(&self) -> (pattern: String)
        ensures
            pattern@ == pattern_text(self@.elements),
    {
        let mut pattern = String::new();
        let mut i: usize = 0;
        assert(pattern@ =~= pattern_text(self.elements@.take(0)));
        while i < self.elements.len()
            invariant
                i <= self.elements@.len(),
                pattern@ == pattern_text(self.elements@.take(i as int)),
            decreases self.elements@.len() - i,
        {
            pattern.push(
                if self.elements[i] {
                    '-'
                } else {
                    '.'
                },
            );
            i += 1;
            assert(pattern@ =~= pattern_text(self.elements@.take(i as int)));
        }
        assert(self.elements@.take(i as int) =~= self.elements@);
        pattern
    }

    /// Commits the in-progress letter, and returns what to flash for it.
    fn commit_letter(&mut self) -> (shows: Vec<Show>)
        ensures
            shows@ == commit_shows(old(self)@, MAX as nat),
            final(self)@ == committed(old(self)@, MAX as nat),
    {
        let mut shows: Vec<Show> = Vec::new();
        if self.elements.len() == 0 {
            return shows;
        }
        self.composer.letter_gap();
        let text = self.composer.message();
        let bytes = text.as_bytes();
        proof {
            assert(utf8::is_ascii_chars(text@));
            utf8::is_ascii_chars_encode_utf8(text@);
        }
        if bytes.len() > 0 {
            shows.push(Show::Char(bytes[bytes.len() - 1]));
        }
        self.elements = Vec::new();
        assert(self@ =~= committed(old(self)@, MAX as nat));
        assert(shows@ =~= commit_shows(old(self)@, MAX as nat));
        shows
    }

    fn start_over(&mut self)
        ensures
            final(self)@ == idle(),
    {
        self.composer.clear();
        self.elements = Vec::new();
        self.pending = None;
        assert(self@ =~= idle());
    }

    fn on_symbol(&mut self, symbol: Symbol) -> (step: Step)
        ensures
            final(self)@ == keyed(old(self)@, symbol, MAX as nat),
            step@ == input_step(
                old(self)@,
                if symbol == Symbol::Dash {
                    InputEvent::Dash
                } else {
                    InputEvent::Dot
                },
                MAX as nat,
            ),
    {
        let mut shows: Vec<Show> = Vec::new();
        let accepted = self.elements.len() < MAX_MORSE;
        if accepted {
            self.composer.symbol(symbol);
            match symbol {
                Symbol::Dot => {
                    self.elements.push(false);
                    shows.push(Show::Dot);
                },
                Symbol::Dash => {
                    self.elements.push(true);
                    shows.push(Show::Dash);
                },
            }
        } else {
            shows.push(Show::Error);
        }
        self.pending = Some(Phase::Letter);
        assert(self@ =~= keyed(old(self)@, symbol, MAX as nat));
        Step { shows, sidetone: accepted, send: None }
    }

    /// Decides what a gesture leads to.
    pub fn on_input(&mut self, event: InputEvent) -> (step: Step)
        ensures
            step@ == input_step(old(self)@, event, MAX as nat),
            final(self)@ == after_input(old(self)@, event, MAX as nat),
            step@.send matches Some(message) ==> message.len() <= MAX && utf8::encode_utf8(
                message,
            ).len() <= MAX,
    {
        match event {
            InputEvent::Dot => self.on_symbol(Symbol::Dot),
            InputEvent::Dash => self.on_symbol(Symbol::Dash),
            InputEvent::Send => {
                let mut shows = self.commit_letter();
                let mut send: Option<String> = None;
                if !self.composer.is_empty() {
                    send = Some(self.composer.message().to_owned());
                    shows.push(Show::Sent);
                }
                self.start_over();
                Step { shows, sidetone: false, send }
            },
            InputEvent::Clear => {
                let mut shows: Vec<Show> = Vec::new();
                if !self.composer.is_empty() || self.elements.len() > 0 {
                    shows.push(Show::Cleared);
                }
                self.start_over();
                Step { shows, sidetone: false, send: None }
            },
        }
    }

    /// Decides what an idle timeout leads to: a pause commits the letter, a
    /// longer one inserts a word space.
    pub fn on_idle(&mut self) -> (step: Step)
        ensures
            step@ == idle_step(old(self)@, MAX as nat),
            final(self)@ == after_idle(old(self)@, MAX as nat),
    {
        match self.pending {
            Some(Phase::Letter) => {
                let shows = self.commit_letter();
                self.pending = Some(Phase::Word);
                Step { shows, sidetone: false, send: None }
            },
            Some(Phase::Word) => {
                self.composer.word_gap();
                self.pending = None;
                Step { shows: Vec::new(), sidetone: false, send: None }
            },
            None => Step { shows: Vec::new(), sidetone: false, send: None },
        }
    }
}

impl<const MAX: usize> Default for Keyer<MAX> {
    fn default() -> (keyer: Self)
        ensures
            keyer@ == idle(),
    {
        Self::new()
    }
}

/// The elements of a letter as dots and dashes.
pub open spec fn pattern_text(elements: Seq<bool>) -> Seq<char> {
    elements.map_values(
        |dash: bool|
            if dash {
                '-'
            } else {
                '.'
            },
    )
}

/// Law: sending and clearing both start over, whatever was entered.
pub proof fn sending_and_clearing_start_over(state: KeyerView, max: nat)
    ensures
        after_input(state, InputEvent::Send, max) == idle(),
        after_input(state, InputEvent::Clear, max) == idle(),
{
}

/// Law: after a symbol, one pause commits the letter and arms the word gap, the
/// next inserts the space and disarms the timer, and a third does nothing.
pub proof fn pauses_run_from_letter_to_word_to_rest(state: KeyerView, max: nat)
    requires
        state.pending == Some(Phase::Letter),
    ensures
        ({
            let first = after_idle(state, max);
            let second = after_idle(first, max);
            &&& first.pending == Some(Phase::Word) && first.elements.len() == 0
            &&& second.pending is None
            &&& after_idle(second, max) == second
        }),
{
}

/// What every keyer keeps: while there is room in the text the composer holds
/// the elements that the keyer holds, and else none; and while a letter is in
/// progress the timer is armed for it.
pub open spec fn is_consistent(state: KeyerView, max: nat) -> bool {
    &&& state.elements.len() <= MAX_MORSE
    &&& state.composer.draft.text.len() < max ==> state.composer.elements == state.elements
    &&& state.composer.draft.text.len() >= max ==> state.composer.elements.len() == 0
    &&& state.pending != Some(Phase::Letter) ==> state.elements.len() == 0
}

/// Law: a new keyer is consistent, and every gesture and timeout keeps it so.
pub proof fn every_step_keeps_the_keyer_consistent(state: KeyerView, event: InputEvent, max: nat)
    requires
        is_consistent(state, max),
    ensures
        is_consistent(idle(), max),
        is_consistent(after_input(state, event, max), max),
        is_consistent(after_idle(state, max), max),
{
    assert(after_idle(state, max).elements =~= Seq::<bool>::empty());
    assert(after_idle(state, max).composer.elements =~= Seq::<bool>::empty());
}

/// The text entered so far, with the letter in progress as if it were
/// committed.
pub open spec fn composed(state: KeyerView) -> Seq<char> {
    if state.composer.elements.len() > 0 {
        state.composer.draft.text.push(morse::morse_code(state.composer.elements) as char)
    } else {
        state.composer.draft.text
    }
}

/// Law: sending broadcasts whatever was composed, the letter in progress with
/// it and whether or not a timer is armed, and shows that it was sent. With
/// nothing composed nothing is sent and nothing shown.
pub proof fn sending_broadcasts_what_was_composed(state: KeyerView, max: nat)
    requires
        is_consistent(state, max),
    ensures
        ({
            let step = input_step(state, InputEvent::Send, max);
            &&& composed(state).len() > 0 ==> step.send == Some(composed(state))
                && step.shows.len() > 0 && step.shows.last() == Show::Sent
            &&& composed(state).len() == 0 ==> step.send is None && !step.shows.contains(
                Show::Sent,
            )
            &&& !step.sidetone
        }),
{
}

/// The state after the idle timer fired `times` times.
pub open spec fn after_idles(state: KeyerView, times: nat, max: nat) -> KeyerView
    decreases times,
{
    if times == 0 {
        state
    } else {
        after_idle(after_idles(state, (times - 1) as nat, max), max)
    }
}

/// Law: pauses lose nothing. However often the timer fires, what was composed
/// stays, with a space after it at most, so a message is sent after the pauses
/// exactly if it would have been sent before them.
pub proof fn pauses_lose_nothing(state: KeyerView, times: nat, max: nat)
    requires
        is_consistent(state, max),
    ensures
        ({
            let later = after_idles(state, times, max);
            let sent = input_step(later, InputEvent::Send, max).send;
            &&& is_consistent(later, max)
            &&& composed(later) == composed(state) || composed(later) == composed(state).push(' ')
            &&& composed(state).len() == 0 ==> composed(later).len() == 0
            &&& sent is Some <==> input_step(state, InputEvent::Send, max).send is Some
            &&& sent matches Some(message) ==> message == composed(state) || message == composed(
                state,
            ).push(' ')
        }),
{
    lemma_pauses_lose_nothing(state, times, max);
    sending_broadcasts_what_was_composed(state, max);
    sending_broadcasts_what_was_composed(after_idles(state, times, max), max);
}

proof fn lemma_pauses_lose_nothing(state: KeyerView, times: nat, max: nat)
    requires
        is_consistent(state, max),
    ensures
        ({
            let later = after_idles(state, times, max);
            &&& is_consistent(later, max)
            &&& later.pending == Some(Phase::Letter) ==> later == state
            &&& later.pending == Some(Phase::Word) ==> composed(later) == composed(state)
            &&& composed(later) == composed(state) || composed(later) == composed(state).push(' ')
            &&& composed(state).len() == 0 ==> composed(later).len() == 0
        }),
    decreases times,
{
    if times > 0 {
        let before = after_idles(state, (times - 1) as nat, max);
        lemma_pauses_lose_nothing(state, (times - 1) as nat, max);
        every_step_keeps_the_keyer_consistent(before, InputEvent::Send, max);
        if before.pending == Some(Phase::Letter) {
            assert(composed(after_idle(before, max)) =~= composed(before));
        }
    }
}

/// Law: a tap adds its element to the letter, is shown and beeped, and sends
/// nothing. A seventh tap is flagged instead and changes nothing of the
/// message. Either way the pause for the letter starts anew.
pub proof fn taps_build_the_letter(state: KeyerView, dash: bool, max: nat)
    ensures
        ({
            let event = if dash {
                InputEvent::Dash
            } else {
                InputEvent::Dot
            };
            let after = after_input(state, event, max);
            let step = input_step(state, event, max);
            &&& after.pending == Some(Phase::Letter)
            &&& after.composer.draft.text == state.composer.draft.text
            &&& step.send is None
            &&& state.elements.len() < 6 ==> {
                &&& after.elements == state.elements.push(dash)
                &&& step.shows == seq![
                    if dash {
                        Show::Dash
                    } else {
                        Show::Dot
                    },
                ]
                &&& step.sidetone
            }
            &&& state.elements.len() >= 6 ==> {
                &&& after.elements == state.elements && after.composer == state.composer
                &&& step.shows == seq![Show::Error]
                &&& !step.sidetone
            }
        }),
{
}

/// Law: clearing is shown exactly if there was something to clear, and sends
/// nothing.
pub proof fn clearing_is_shown_if_there_was_something(state: KeyerView, max: nat)
    requires
        is_consistent(state, max),
    ensures
        ({
            let step = input_step(state, InputEvent::Clear, max);
            let something = state.composer.draft.text.len() > 0 || state.elements.len() > 0;
            &&& something ==> step.shows == seq![Show::Cleared]
            &&& !something ==> step.shows == Seq::<Show>::empty()
            &&& step.send is None && !step.sidetone
        }),
{
}

/// The gesture that enters a symbol.
pub open spec fn tap_of(symbol: Symbol) -> InputEvent {
    if symbol is Dash {
        InputEvent::Dash
    } else {
        InputEvent::Dot
    }
}

/// The state after these taps, with no pause between them.
pub open spec fn after_taps(state: KeyerView, symbols: Seq<Symbol>, max: nat) -> KeyerView
    decreases symbols.len(),
{
    if symbols.len() == 0 {
        state
    } else {
        after_input(after_taps(state, symbols.drop_last(), max), tap_of(symbols.last()), max)
    }
}

proof fn lemma_taps_are_held(state: KeyerView, symbols: Seq<Symbol>, max: nat)
    requires
        is_consistent(state, max),
        state.elements.len() == 0,
        state.composer.draft.text.len() < max,
        symbols.len() <= 6,
    ensures
        is_consistent(after_taps(state, symbols, max), max),
        after_taps(state, symbols, max).elements == morse::elements_of(symbols),
        after_taps(state, symbols, max).composer.draft.text == state.composer.draft.text,
        symbols.len() > 0 ==> after_taps(state, symbols, max).pending == Some(Phase::Letter)
            && !after_taps(state, symbols, max).composer.draft.space_pending,
    decreases symbols.len(),
{
    if symbols.len() == 0 {
        assert(morse::elements_of(symbols) =~= state.elements);
    } else {
        let before = after_taps(state, symbols.drop_last(), max);
        lemma_taps_are_held(state, symbols.drop_last(), max);
        every_step_keeps_the_keyer_consistent(before, tap_of(symbols.last()), max);
        assert(morse::elements_of(symbols) =~= morse::elements_of(symbols.drop_last()).push(
            symbols.last() is Dash,
        ));
    }
}

/// Law: one to six taps and a pause add the character that they stand for to
/// the message and flash it; a second pause adds a space where there is room;
/// and sending, with or without these pauses, broadcasts the message with the
/// character in it.
pub proof fn taps_and_pauses_compose_a_letter(state: KeyerView, symbols: Seq<Symbol>, max: nat)
    requires
        is_consistent(state, max),
        state.elements.len() == 0,
        state.composer.draft.text.len() < max,
        1 <= symbols.len() <= 6,
    ensures
        ({
            let code = morse::morse_code(morse::elements_of(symbols));
            let text = state.composer.draft.text.push(code as char);
            let tapped = after_taps(state, symbols, max);
            let paused = after_idle(tapped, max);
            let rested = after_idle(paused, max);
            &&& paused.composer.draft.text == text
            &&& idle_step(tapped, max).shows == seq![Show::Char((code as char) as u8)]
            &&& rested.composer.draft.text == (if text.len() < max {
                text.push(' ')
            } else {
                text
            })
            &&& rested.pending is None
            &&& input_step(tapped, InputEvent::Send, max).send == Some(text)
            &&& input_step(paused, InputEvent::Send, max).send == Some(text)
            &&& input_step(rested, InputEvent::Send, max).send == Some(
                rested.composer.draft.text,
            )
        }),
{
    let tapped = after_taps(state, symbols, max);
    lemma_taps_are_held(state, symbols, max);
    every_step_keeps_the_keyer_consistent(tapped, InputEvent::Send, max);
    let paused = after_idle(tapped, max);
    every_step_keeps_the_keyer_consistent(paused, InputEvent::Send, max);
    let rested = after_idle(paused, max);
    sending_broadcasts_what_was_composed(tapped, max);
    sending_broadcasts_what_was_composed(paused, max);
    sending_broadcasts_what_was_composed(rested, max);
}

/// Law: the pattern of a letter has a dash for each dash and a dot for each
/// dot, in order.
pub proof fn a_pattern_shows_each_element(elements: Seq<bool>, i: int)
    requires
        0 <= i < elements.len(),
    ensures
        pattern_text(elements).len() == elements.len(),
        pattern_text(elements)[i] == '-' <==> elements[i],
        pattern_text(elements)[i] == '.' <==> !elements[i],
{
}

/// Law: a letter is flashed when it is committed, by a pause or by sending, and
/// nothing else is flashed then but that the message was sent.
pub proof fn a_committed_letter_is_flashed(state: KeyerView, max: nat)
    requires
        is_consistent(state, max),
    ensures
        ({
            let text = composed(state);
            let flash = if state.elements.len() > 0 && text.len() > 0 {
                seq![Show::Char(text.last() as u8)]
            } else {
                Seq::<Show>::empty()
            };
            &&& input_step(state, InputEvent::Send, max).shows == (if text.len() > 0 {
                flash.push(Show::Sent)
            } else {
                flash
            })
            &&& idle_step(state, max).shows == (if state.pending == Some(Phase::Letter) {
                flash
            } else {
                Seq::<Show>::empty()
            })
            &&& idle_step(state, max).send is None && !idle_step(state, max).sidetone
        }),
{
}

/// Law: a keyer that starts over holds no text and no element, and no timer is
/// armed.
pub proof fn starting_over_leaves_nothing()
    ensures
        composed(idle()).len() == 0,
        idle().elements.len() == 0,
        idle().composer.elements.len() == 0,
        !idle().composer.draft.space_pending,
        idle().pending is None,
{
}

} // verus!
