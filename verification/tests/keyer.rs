//! The morse keyer.

use poholos::keyer::{idle_millis, InputEvent, Keyer, Phase, Show};

fn key(keyer: &mut Keyer<15>, code: &str) {
    for element in code.chars() {
        keyer.on_input(if element == '-' {
            InputEvent::Dash
        } else {
            InputEvent::Dot
        });
    }
}

#[test]
fn a_message_is_keyed_paused_and_sent() {
    let mut k = Keyer::<15>::new();
    assert_eq!(k.pending(), None);
    let step = k.on_input(InputEvent::Dot);
    assert_eq!(step.shows, vec![Show::Dot]);
    assert!(step.sidetone);
    assert_eq!(k.pending(), Some(Phase::Letter));
    let step = k.on_input(InputEvent::Dash);
    assert_eq!(step.shows, vec![Show::Dash]);
    assert_eq!(k.pattern(), ".-");
    // A pause commits the letter, a longer one inserts the space.
    let step = k.on_idle();
    assert_eq!(step.shows, vec![Show::Char(b'A')]);
    assert_eq!(k.text(), "A");
    assert_eq!(k.pattern(), "");
    assert_eq!(k.pending(), Some(Phase::Word));
    assert!(k.on_idle().shows.is_empty());
    assert_eq!(k.text(), "A ");
    assert_eq!(k.pending(), None);
    assert!(k.on_idle().shows.is_empty());
    assert_eq!(k.text(), "A ");
    // Sending commits the letter in progress.
    key(&mut k, "-");
    let step = k.on_input(InputEvent::Send);
    assert_eq!(step.shows, vec![Show::Char(b'T'), Show::Sent]);
    assert_eq!(step.send, Some("A T".to_string()));
    assert!(!step.sidetone);
    assert_eq!(k.text(), "");
    assert_eq!(k.pending(), None);
}

#[test]
fn sending_nothing_sends_nothing() {
    let mut k: Keyer<15> = Keyer::default();
    let step = k.on_input(InputEvent::Send);
    assert!(step.shows.is_empty());
    assert_eq!(step.send, None);
}

#[test]
fn clearing_shows_only_if_something_was_there() {
    let mut k = Keyer::<15>::new();
    assert!(k.on_input(InputEvent::Clear).shows.is_empty());
    key(&mut k, "-");
    let step = k.on_input(InputEvent::Clear);
    assert_eq!(step.shows, vec![Show::Cleared]);
    assert_eq!(k.pending(), None);
    // Nothing of the cleared letter is left.
    key(&mut k, ".");
    k.on_idle();
    assert_eq!(k.text(), "E");
}

#[test]
fn a_seventh_element_is_flagged() {
    let mut k = Keyer::<15>::new();
    key(&mut k, "......");
    k.on_idle();
    key(&mut k, "..--..");
    let step = k.on_input(InputEvent::Dot);
    assert_eq!(step.shows, vec![Show::Error]);
    assert!(!step.sidetone);
    assert_eq!(k.pending(), Some(Phase::Letter));
    k.on_idle();
    assert_eq!(k.text(), "??");
}

#[test]
fn the_text_stops_at_the_cap() {
    let mut k = Keyer::<2>::new();
    for _ in 0..3 {
        k.on_input(InputEvent::Dash);
        k.on_idle();
    }
    assert_eq!(k.text(), "TT");
    let step = k.on_input(InputEvent::Send);
    assert_eq!(step.send, Some("TT".to_string()));
}

#[test]
fn the_word_gap_is_two_seconds_from_the_last_symbol() {
    assert_eq!(idle_millis(Phase::Letter), 800);
    assert_eq!(idle_millis(Phase::Letter) + idle_millis(Phase::Word), 2000);
}
