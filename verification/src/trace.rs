//! Backtraces in errors.
//!
//! An error captures where it was made, if the environment asks for that with
//! `RUST_BACKTRACE`, and its message then ends with the backtrace.

use std::backtrace::{Backtrace, BacktraceStatus};
use vstd::prelude::*;

verus! {

/// The backtrace of std, as an opaque type.
#[verifier::external_type_specification]
#[verifier::external_body]
pub struct ExBacktrace(std::backtrace::Backtrace);

/// `Backtrace::capture`: whether it captures anything rests on the
/// environment, so nothing is claimed of the result.
#[verifier::external_body]
fn capture_backtrace() -> (backtrace: Backtrace) {
    Backtrace::capture()
}

/// `Backtrace::status`, told apart as captured or not. It rests on the
/// environment of the capture, so nothing is claimed of the result.
#[verifier::external_body]
fn is_captured(backtrace: &Backtrace) -> (captured: bool) {
    matches!(backtrace.status(), BacktraceStatus::Captured)
}

/// The `Display` form of a `Backtrace`. It rests on the machine and the build,
/// so nothing is claimed of the result.
#[verifier::external_body]
fn rendered(backtrace: &Backtrace) -> (text: String) {
    backtrace.to_string()
}

/// An error's sentence, followed on a new line by the backtrace, if there is
/// one.
pub open spec fn explanation(sentence: Seq<char>, backtrace: Option<Seq<char>>) -> Seq<char> {
    match backtrace {
        Some(text) => sentence + "\n"@ + text,
        None => sentence,
    }
}

/// Whether `message` explains an error by `sentence`: it is the sentence
/// alone, or, where a backtrace was captured, the sentence and a backtrace.
pub open spec fn explains(message: Seq<char>, sentence: Seq<char>, traced: bool) -> bool {
    if traced {
        exists|text: Seq<char>| message == #[trigger] explanation(sentence, Some(text))
    } else {
        message == explanation(sentence, None)
    }
}

/// Law: every explanation starts with its sentence.
pub proof fn an_explanation_starts_with_its_sentence(
    message: Seq<char>,
    sentence: Seq<char>,
    traced: bool,
)
    requires
        explains(message, sentence, traced),
    ensures
        sentence.is_prefix_of(message),
{
    assert(message.take(sentence.len() as int) =~= sentence);
}

/// Writes an error's sentence and the backtrace, if there is one.
#[must_use]
pub fn explained(sentence: String, backtrace: Option<String>) -> (message: String)
    ensures
        message@ == explanation(
            sentence@,
            match backtrace {
                Some(text) => Some(text@),
                None => None,
            },
        ),
{
    let mut message = sentence;
    if let Some(text) = backtrace {
        message.append("\n");
        message.append(text.as_str());
        assert(message@ =~= explanation(sentence@, Some(text@)));
    }
    message
}

/// The backtrace that an error holds, if one was captured. Its view is whether
/// one was.
#[derive(Debug)]
pub struct Trace {
    captured: Option<Backtrace>,
}

impl View for Trace {
    type V = bool;

    closed spec fn view(&self) -> bool {
        self.captured is Some
    }
}

impl Trace {
    /// Captures a backtrace here, if the environment asks for it. Whether it
    /// did is not said.
    pub(crate) fn capture() -> (trace: Self) {
        let backtrace = capture_backtrace();
        if is_captured(&backtrace) {
            Self { captured: Some(backtrace) }
        } else {
            Self { captured: None }
        }
    }

    /// Writes the sentence of the error that holds this, and the backtrace.
    pub(crate) fn explain(&self, sentence: String) -> (message: String)
        ensures
            explains(message@, sentence@, self@),
    {
        match &self.captured {
            Some(backtrace) => explained(sentence, Some(rendered(backtrace))),
            None => explained(sentence, None),
        }
    }
}

/// Law: a backtrace follows its sentence on a new line, whole.
pub proof fn a_backtrace_follows_its_sentence(sentence: Seq<char>, backtrace: Seq<char>)
    ensures
        explanation(sentence, None) == sentence,
        explanation(sentence, Some(backtrace)) == sentence.push('\n') + backtrace,
{
    reveal_strlit("\n");
    assert(explanation(sentence, Some(backtrace)) =~= sentence.push('\n') + backtrace);
}

} // verus!
