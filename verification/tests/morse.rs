//! Morse composition.

use poholos::morse::Symbol::{Dash, Dot};
use poholos::morse::{Composer, Draft, Symbol};

/// Enters a letter from its symbols and commits it with a letter gap.
fn letter<const MAX: usize>(composer: &mut Composer<MAX>, symbols: &[Symbol]) {
    for &symbol in symbols {
        composer.symbol(symbol);
    }
    composer.letter_gap();
}

#[test]
fn decodes_sos() {
    let mut c = Composer::<15>::new();
    letter(&mut c, &[Dot, Dot, Dot]);
    letter(&mut c, &[Dash, Dash, Dash]);
    letter(&mut c, &[Dot, Dot, Dot]);
    assert_eq!(c.message(), "SOS");
}

#[test]
fn single_symbol_letters() {
    let mut c = Composer::<15>::new();
    letter(&mut c, &[Dot, Dash]); // A
    assert_eq!(c.message(), "A");
}

#[test]
fn word_gap_inserts_one_space_even_if_repeated() {
    let mut c = Composer::<15>::new();
    letter(&mut c, &[Dot, Dot, Dot]);
    letter(&mut c, &[Dash, Dash, Dash]);
    letter(&mut c, &[Dot, Dot, Dot]);
    c.word_gap();
    c.word_gap(); // a longer pause must not stack a second space
    letter(&mut c, &[Dot, Dot, Dot]);
    letter(&mut c, &[Dash, Dash, Dash]);
    letter(&mut c, &[Dot, Dot, Dot]);
    assert_eq!(c.message(), "SOS SOS");
}

#[test]
fn leading_word_gap_inserts_no_space() {
    let mut c = Composer::<15>::new();
    c.word_gap(); // before any letter
    letter(&mut c, &[Dot, Dash]); // A
    assert_eq!(c.message(), "A");
}

#[test]
fn clear_resets_everything() {
    let mut c = Composer::<15>::new();
    letter(&mut c, &[Dot, Dash]);
    assert!(!c.is_empty());
    c.clear();
    assert!(c.is_empty());
    assert_eq!(c.message(), "");
}

#[test]
fn input_past_the_cap_is_ignored() {
    let mut c = Composer::<3>::new();
    letter(&mut c, &[Dot, Dot, Dot]); // S
    letter(&mut c, &[Dash, Dash, Dash]); // O
    letter(&mut c, &[Dot, Dot, Dot]); // S -> "SOS", now full
    letter(&mut c, &[Dot, Dash]); // A -> must be refused
    assert_eq!(c.message(), "SOS");
    assert_eq!(c.message().len(), 3);
}

#[test]
fn clear_drops_the_letter_in_progress() {
    let mut c = Composer::<15>::new();
    c.symbol(Dash);
    assert!(!c.is_empty());
    c.clear();
    letter(&mut c, &[Dot]); // E, not N
    assert_eq!(c.message(), "E");
}

#[test]
fn a_word_gap_commits_the_letter_first() {
    let mut c: Composer<15> = Composer::default();
    c.symbol(Dash);
    c.word_gap();
    c.symbol(Dot);
    c.word_gap();
    assert_eq!(c.message(), "T E ");
}

#[test]
fn gaps_without_symbols_change_nothing() {
    let mut c = Composer::<15>::new();
    c.letter_gap();
    c.word_gap();
    assert!(c.is_empty());
    letter(&mut c, &[Dot]);
    c.letter_gap();
    assert_eq!(c.message(), "E");
}

#[test]
fn elements_past_six_are_dropped_and_unknown_letters_are_marked() {
    let mut c = Composer::<15>::new();
    // Six dots are no letter, and a seventh changes nothing.
    letter(&mut c, &[Dot; 7]);
    assert_eq!(c.message(), "?");
    // Five dots and a dropped rest is still what the first six say.
    letter(&mut c, &[Dot, Dot, Dash, Dash, Dot, Dot, Dash]);
    assert_eq!(c.message(), "??");
    letter(&mut c, &[Dash, Dash, Dash, Dash, Dash]);
    assert_eq!(c.message(), "??0");
}

#[test]
fn the_whole_alphabet_decodes() {
    let alphabet = [
        ".-", "-...", "-.-.", "-..", ".", "..-.", "--.", "....", "..", ".---", "-.-", ".-..", "--",
        "-.", "---", ".--.", "--.-", ".-.", "...", "-", "..-", "...-", ".--", "-..-", "-.--",
        "--..",
    ];
    let mut c = Composer::<26>::new();
    for code in alphabet {
        for element in code.chars() {
            c.symbol(if element == '-' { Dash } else { Dot });
        }
        c.letter_gap();
    }
    assert_eq!(c.message(), "ABCDEFGHIJKLMNOPQRSTUVWXYZ");
}

#[test]
fn a_space_may_fill_the_cap_but_not_pass_it() {
    let mut c = Composer::<2>::new();
    letter(&mut c, &[Dot]);
    c.word_gap();
    assert_eq!(c.message(), "E ");
    c.symbol(Dot);
    c.word_gap();
    assert_eq!(c.message(), "E ");
}

#[test]
fn drafts_follow_the_same_rules() {
    let draft = Draft::<4>::new().space().letter('A').space().space();
    assert_eq!(draft.text(), "A ");
    assert!(!draft.is_empty());
    let draft = draft.letter_begun().letter('B').space();
    assert_eq!(draft.text(), "A B ");
    assert!(draft.is_full());
    let draft = draft.letter_begun().letter('C').space();
    assert_eq!(draft.text(), "A B ");
    assert!(Draft::<4>::default().is_empty());
}
