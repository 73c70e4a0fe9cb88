//! Transport decisions: what goes on air next, what a platform can carry, and
//! when a socket has failed.
//!
//! The loops that drive a radio or a socket live in the application. They ask
//! here what to do next and report what happened.

use crate::packet::{PacketView, MAX_CAPACITY};
use crate::rotation;
use crate::rotation::{Rotation, RotationView};
use crate::text;
use crate::text::push_decimal;
use crate::wire;
use crate::wire::{FrameN, MAX_FRAME_LEN};
use vstd::prelude::*;

verus! {

/// An outgoing frame, classed by origin so the rotation can prioritize.
#[derive(Copy, Clone, Debug)]
pub enum Outgoing<const CAP: usize> {
    /// Originated here: guaranteed a recurring share of airtime.
    Own(FrameN<CAP>),
    /// Forwarded for the mesh: gets one dwell, then sheds.
    Relay(FrameN<CAP>),
}

/// The rotation after an outgoing frame has entered it.
pub open spec fn enqueued<const CAP: usize>(
    state: RotationView,
    out: Outgoing<CAP>,
) -> RotationView {
    match out {
        Outgoing::Own(frame) => rotation::with_own(state, frame@),
        Outgoing::Relay(frame) => rotation::with_relay(state, frame@),
    }
}

/// Enters an outgoing frame into the rotation by its origin.
pub fn enqueue<const CAP: usize>(rotation: &mut Rotation<CAP>, out: &Outgoing<CAP>)
    ensures
        final(rotation)@ == enqueued(old(rotation)@, *out),
{
    match *out {
        Outgoing::Own(frame) => rotation.enqueue_own(frame),
        Outgoing::Relay(frame) => rotation.enqueue_relay(frame),
    }
}

/// The bytes of a frame, if there is one.
pub open spec fn bytes_on_air<const CAP: usize>(on_air: Option<FrameN<CAP>>) -> Option<Seq<u8>> {
    match on_air {
        Some(frame) => Some(frame@),
        None => None,
    }
}

/// Updates the belief of which frame is on air after an attempt to register
/// one.
///
/// Success records `frame`. Failure clears the belief, because a failed
/// registration leaves the radio advertising nothing: platform advertisers
/// drop the old advertisement before installing the new one. Clearing it is
/// what lets the same frame be tried again next turn.
pub fn record_on_air<const CAP: usize>(
    on_air: &mut Option<FrameN<CAP>>,
    frame: FrameN<CAP>,
    registered: bool,
)
    ensures
        *final(on_air) == (if registered {
            Some(frame)
        } else {
            None
        }),
{
    *on_air = if registered {
        Some(frame)
    } else {
        None
    };
}

/// The state of a node's single advertising slot.
pub struct AirtimeView {
    /// The frames that compete for the slot.
    pub rotation: RotationView,
    /// The frame believed to be on air.
    pub on_air: Option<Seq<u8>>,
}

/// What the driver of the advertising slot does next.
#[derive(Copy, Clone, Debug)]
pub enum Turn<const CAP: usize> {
    /// Nothing waits: leave the slot alone until new work arrives.
    Wait,
    /// The frame is on air already: hold it for one dwell.
    Hold,
    /// Register this frame, report the outcome, and hold it for one dwell.
    Register(FrameN<CAP>),
}

/// What a [`Turn`] says, the frame by its bytes.
pub enum TurnView {
    Wait,
    Hold,
    Register(Seq<u8>),
}

impl<const CAP: usize> View for Turn<CAP> {
    type V = TurnView;

    open spec fn view(&self) -> TurnView {
        match *self {
            Turn::Wait => TurnView::Wait,
            Turn::Hold => TurnView::Hold,
            Turn::Register(frame) => TurnView::Register(frame@),
        }
    }
}

/// The next turn of a slot. A frame that is on air is not registered again.
pub open spec fn turn_of(state: AirtimeView) -> TurnView {
    match rotation::aired(state.rotation) {
        None => TurnView::Wait,
        Some(frame) => if state.on_air == Some(frame) {
            TurnView::Hold
        } else {
            TurnView::Register(frame)
        },
    }
}

/// A node's advertising slot, shared among outgoing frames.
///
/// Its view is an [`AirtimeView`].
#[derive(Debug)]
pub struct Airtime<const CAP: usize> {
    rotation: Rotation<CAP>,
    on_air: Option<FrameN<CAP>>,
}

impl<const CAP: usize> View for Airtime<CAP> {
    type V = AirtimeView;

    closed spec fn view(&self) -> AirtimeView {
        AirtimeView { rotation: self.rotation@, on_air: bytes_on_air(self.on_air) }
    }
}

impl<const CAP: usize> Airtime<CAP> {
    /// Creates an idle slot.
    #[must_use]
    pub fn new() -> (airtime: Self)
        ensures
            airtime@ == (AirtimeView { rotation: rotation::at_rest(), on_air: None }),
    {
        Self { rotation: Rotation::new(), on_air: None }
    }

    /// Accepts an outgoing frame.
    pub fn enqueue(&mut self, out: &Outgoing<CAP>)
        ensures
            final(self)@ == (AirtimeView {
                rotation: enqueued(old(self)@.rotation, *out),
                on_air: old(self)@.on_air,
            }),
    {
        enqueue(&mut self.rotation, out);
    }

    /// Starts the next turn.
    pub fn next_turn(&mut self) -> (turn: Turn<CAP>)
        ensures
            turn@ == turn_of(old(self)@),
            final(self)@ == (AirtimeView {
                rotation: rotation::after_turn(old(self)@.rotation),
                on_air: old(self)@.on_air,
            }),
    {
        match self.rotation.next_frame() {
            None => Turn::Wait,
            Some(frame) => {
                let already = match self.on_air {
                    Some(current) => current == frame,
                    None => false,
                };
                if already {
                    Turn::Hold
                } else {
                    Turn::Register(frame)
                }
            },
        }
    }

    /// Takes note of whether the platform registered `frame`.
    pub fn registered(&mut self, frame: FrameN<CAP>, success: bool)
        ensures
            final(self)@ == (AirtimeView {
                rotation: old(self)@.rotation,
                on_air: if success {
                    Some(frame@)
                } else {
                    None
                },
            }),
            final(self)@ == after_registration(old(self)@, frame@, success),
    {
        record_on_air(&mut self.on_air, frame, success);
    }
}

impl<const CAP: usize> Default for Airtime<CAP> {
    fn default() -> (airtime: Self)
        ensures
            airtime@ == (AirtimeView { rotation: rotation::at_rest(), on_air: None }),
    {
        Self::new()
    }
}

/// The slot after the platform was asked to put `frame` on air.
pub open spec fn after_registration(
    state: AirtimeView,
    frame: Seq<u8>,
    success: bool,
) -> AirtimeView {
    AirtimeView {
        on_air: if success {
            Some(frame)
        } else {
            None
        },
        ..state
    }
}

/// Law: an attempt to register a frame decides the next turn that serves it:
/// after a success it is held, and after a failure it is registered again. The
/// attempt does not touch the frames that wait.
pub proof fn an_attempt_decides_the_next_turn(
    state: AirtimeView,
    frame: Seq<u8>,
    served: Seq<u8>,
    success: bool,
)
    requires
        rotation::aired(state.rotation) == Some(served),
    ensures
        after_registration(state, frame, success).rotation == state.rotation,
        turn_of(after_registration(state, frame, success)) == (if success && served == frame {
            TurnView::Hold
        } else {
            TurnView::Register(served)
        }),
{
}

/// Law: a frame whose registration failed is tried again whenever the rotation
/// serves it, so a node that only ever sends one frame is not stranded silent.
pub proof fn a_failed_registration_is_retried(state: AirtimeView)
    requires
        state.on_air is None,
        rotation::aired(state.rotation) is Some,
    ensures
        turn_of(state) == TurnView::Register(rotation::aired(state.rotation)->0),
{
}

/// Law: a frame that was registered is not registered again while the rotation
/// keeps serving it.
pub proof fn a_registered_frame_is_held(rotation: RotationView, frame: Seq<u8>)
    requires
        rotation::aired(rotation) == Some(frame),
    ensures
        turn_of(AirtimeView { rotation, on_air: Some(frame) }) == TurnView::Hold,
{
}

/// Largest frame that a Linux node advertises: BlueZ manufacturer data carries
/// the full legacy frame.
pub const LINUX_MAX_FRAME: usize = MAX_FRAME_LEN;

/// Largest frame that a Windows node advertises, above which the adapter
/// aborts silently.
pub const WINDOWS_MAX_FRAME: usize = 156;

/// Largest frame that a macOS node advertises: what fits a service UUID.
pub const MACOS_MAX_FRAME: usize = crate::advert::MAX_UUID_FRAME;

/// The explanation of a frame that exceeds the platform's budget.
pub open spec fn over_budget_text(len: nat, max: nat) -> Seq<char> {
    "frame is "@ + text::decimal(len) + " bytes but this platform can only advertise "@
        + text::decimal(max) + " \u{2014} send a shorter message"@
}

/// Checks the local user's frame of `len` bytes against a platform's budget.
///
/// # Errors
/// Returns the explanation if the frame exceeds the budget.
pub fn check_own_frame(len: usize, max: usize) -> (checked: Result<(), String>)
    ensures
        checked is Ok <==> len <= max,
        checked matches Err(why) ==> why@ == over_budget_text(len as nat, max as nat),
{
    if len <= max {
        return Ok(());
    }
    let mut why = String::new();
    why.append("frame is ");
    push_decimal(&mut why, len);
    why.append(" bytes but this platform can only advertise ");
    push_decimal(&mut why, max);
    why.append(" \u{2014} send a shorter message");
    assert(why@ =~= over_budget_text(len as nat, max as nat));
    Err(why)
}

/// Tells whether a relay of `len` bytes can be carried. One that cannot is
/// skipped: that is a routine capability mismatch, not an error.
#[must_use]
pub fn relay_fits(len: usize, max: usize) -> (fits: bool)
    ensures
        fits == (len <= max),
{
    len <= max
}

/// The explanation of a frame that exceeds the service-UUID budget.
pub open spec fn over_uuid_budget_text(len: nat) -> Seq<char> {
    "frame is "@ + text::decimal(len) + " bytes but macOS can only advertise "@ + text::decimal(
        MACOS_MAX_FRAME as nat,
    ) + " (packed into a 128-bit service UUID) \u{2014} keep hearsay under 9 payload bytes and telegrams under 5 when sending from a Mac"@
}

/// Checks a frame of `len` bytes against the service-UUID budget.
///
/// # Errors
/// Returns the explanation if the frame exceeds the budget.
pub fn check_uuid_frame(len: usize) -> (checked: Result<(), String>)
    ensures
        checked is Ok <==> len <= MACOS_MAX_FRAME,
        checked matches Err(why) ==> why@ == over_uuid_budget_text(len as nat),
{
    if len <= MACOS_MAX_FRAME {
        return Ok(());
    }
    let mut why = String::new();
    why.append("frame is ");
    push_decimal(&mut why, len);
    why.append(" bytes but macOS can only advertise ");
    push_decimal(&mut why, MACOS_MAX_FRAME);
    why.append(
        " (packed into a 128-bit service UUID) \u{2014} keep hearsay under 9 payload bytes and telegrams under 5 when sending from a Mac",
    );
    assert(why@ =~= over_uuid_budget_text(len as nat));
    Err(why)
}

/// Law: a macOS node sends exactly the hearsay of at most 8 payload bytes and
/// the telegrams of at most 4.
pub proof fn the_uuid_budget_in_payload_bytes(packet: PacketView)
    ensures
        wire::frame_len(packet) <= MACOS_MAX_FRAME <==> packet.payload.len() <= (
        if packet.dest is None {
            8nat
        } else {
            4
        }),
{
}

/// How many receive failures in a row are tolerated before the socket counts
/// as permanently broken.
pub const MAX_CONSECUTIVE_RECV_ERRORS: u32 = 64;

/// What the reader of a socket does after a receive.
#[derive(Copy, Clone, Debug)]
pub enum ReadStep<const CAP: usize> {
    /// Keep receiving: a transient error, or a datagram that is no frame.
    Skip,
    /// Stop: nothing succeeds anymore.
    GiveUp,
    /// Pass this frame on.
    Forward(FrameN<CAP>),
}

/// What a [`ReadStep`] says, the frame by its bytes.
pub enum ReadStepView {
    Skip,
    GiveUp,
    Forward(Seq<u8>),
}

impl<const CAP: usize> View for ReadStep<CAP> {
    type V = ReadStepView;

    open spec fn view(&self) -> ReadStepView {
        match *self {
            ReadStep::Skip => ReadStepView::Skip,
            ReadStep::GiveUp => ReadStepView::GiveUp,
            ReadStep::Forward(frame) => ReadStepView::Forward(frame@),
        }
    }
}

/// The failures in a row after one more; the count stops at the limit.
pub open spec fn after_error(errors: nat) -> nat {
    if errors < MAX_CONSECUTIVE_RECV_ERRORS {
        errors + 1
    } else {
        errors
    }
}

/// What a reader does after a failure that follows `errors` others.
pub open spec fn error_step(errors: nat) -> ReadStepView {
    if after_error(errors) >= MAX_CONSECUTIVE_RECV_ERRORS {
        ReadStepView::GiveUp
    } else {
        ReadStepView::Skip
    }
}

/// The failures in a row after `more` of them.
pub open spec fn after_errors(errors: nat, more: nat) -> nat
    decreases more,
{
    if more == 0 {
        errors
    } else {
        after_error(after_errors(errors, (more - 1) as nat))
    }
}

/// What a reader of frames of capacity `cap` does with a datagram.
pub open spec fn datagram_step(datagram: Seq<u8>, cap: nat) -> ReadStepView {
    if datagram.len() <= cap {
        ReadStepView::Forward(datagram)
    } else {
        ReadStepView::Skip
    }
}

/// Law: after a success, a reader keeps receiving through 63 failures in a row
/// and gives up at the 64th and after it.
pub proof fn sixty_four_failures_in_a_row_end_it(failures: nat)
    ensures
        after_errors(0, failures) == (if failures < 64 {
            failures
        } else {
            64
        }),
        error_step(after_errors(0, failures)) == (if failures + 1 >= 64 {
            ReadStepView::GiveUp
        } else {
            ReadStepView::Skip
        }),
    decreases failures,
{
    if failures > 0 {
        sixty_four_failures_in_a_row_end_it((failures - 1) as nat);
    }
}

/// Law: a datagram is passed on unchanged exactly if it has the size of a
/// frame, and never ends the reading.
pub proof fn frame_sized_datagrams_are_passed_on(datagram: Seq<u8>, cap: nat)
    ensures
        datagram_step(datagram, cap) == ReadStepView::Forward(datagram) <==> datagram.len() <= cap,
        datagram_step(datagram, cap) == ReadStepView::Skip <==> datagram.len() > cap,
{
}

/// The reader of a socket that carries frames of capacity `CAP`: counts
/// receive failures in a row. Its view is that number.
#[derive(Debug)]
pub struct ReadState<const CAP: usize> {
    consecutive_errors: u32,
}

impl<const CAP: usize> View for ReadState<CAP> {
    type V = nat;

    closed spec fn view(&self) -> nat {
        self.consecutive_errors as nat
    }
}

impl<const CAP: usize> ReadState<CAP> {
    /// Creates the state of a fresh socket.
    #[must_use]
    pub fn new() -> (state: Self)
        ensures
            state@ == 0,
    {
        Self { consecutive_errors: 0 }
    }

    /// Decides on a failed receive. The reader gives up once
    /// [`MAX_CONSECUTIVE_RECV_ERRORS`] have come in a row.
    pub fn on_error(&mut self) -> (step: ReadStep<CAP>)
        ensures
            final(self)@ == (if old(self)@ < MAX_CONSECUTIVE_RECV_ERRORS {
                old(self)@ + 1
            } else {
                old(self)@
            }),
            step@ == (if final(self)@ >= MAX_CONSECUTIVE_RECV_ERRORS {
                ReadStepView::GiveUp
            } else {
                ReadStepView::Skip
            }),
            final(self)@ == after_error(old(self)@),
            step@ == error_step(old(self)@),
    {
        if self.consecutive_errors < MAX_CONSECUTIVE_RECV_ERRORS {
            self.consecutive_errors = self.consecutive_errors + 1;
        }
        if self.consecutive_errors >= MAX_CONSECUTIVE_RECV_ERRORS {
            ReadStep::GiveUp
        } else {
            ReadStep::Skip
        }
    }

    /// Decides on a received datagram. One that is not frame-sized is dropped
    /// quietly like radio noise.
    pub fn on_datagram(&mut self, datagram: &[u8]) -> (step: ReadStep<CAP>)
        requires
            CAP <= MAX_CAPACITY,
        ensures
            final(self)@ == 0,
            step@ == (if datagram@.len() <= CAP {
                ReadStepView::Forward(datagram@)
            } else {
                ReadStepView::Skip
            }),
            step@ == datagram_step(datagram@, CAP as nat),
    {
        self.consecutive_errors = 0;
        match FrameN::copy_from(datagram) {
            Ok(frame) => ReadStep::Forward(frame),
            Err(_) => ReadStep::Skip,
        }
    }
}

impl<const CAP: usize> Default for ReadState<CAP> {
    fn default() -> (state: Self)
        ensures
            state@ == 0,
    {
        Self::new()
    }
}

/// Law: a turn waits exactly when nothing is to be aired. It holds exactly when
/// the bytes on air are those of the frame that is to be aired, and else it
/// registers that frame.
pub proof fn a_turn_puts_the_served_frame_on_air(state: AirtimeView, frame: Seq<u8>)
    ensures
        turn_of(state) == TurnView::Wait <==> rotation::aired(state.rotation) is None,
        turn_of(state) == TurnView::Register(frame) <==> rotation::aired(state.rotation) == Some(
            frame,
        ) && state.on_air != Some(frame),
        turn_of(state) == TurnView::Hold <==> state.on_air is Some && state.on_air
            == rotation::aired(state.rotation),
{
}

/// Law: a message that the user sends is what the next turn of the own message
/// puts on air, unless its very bytes are there already.
pub proof fn a_new_own_message_is_put_on_air(state: AirtimeView, frame: Seq<u8>)
    requires
        rotation::is_sound(state.rotation),
        state.rotation.relays.len() == 0,
        state.on_air != Some(frame),
    ensures
        turn_of(
            AirtimeView { rotation: rotation::with_own(state.rotation, frame), ..state },
        ) == TurnView::Register(frame),
{
}

/// Law: an outgoing frame enters the rotation by its origin: an own one as the
/// own message, a relay as the last relay.
pub proof fn frames_enter_by_origin<const CAP: usize>(state: RotationView, frame: FrameN<CAP>)
    ensures
        rotation::own_frame(enqueued(state, Outgoing::Own(frame))) == Some(frame@),
        enqueued(state, Outgoing::Own(frame)).relays == state.relays,
        enqueued(state, Outgoing::Relay(frame)).own == state.own,
        enqueued(state, Outgoing::Relay(frame)).relays.last() == frame@,
{
}

/// Law: the explanation of a frame over budget tells its length and the budget.
pub proof fn an_over_budget_text_tells_the_numbers(len: nat, max: nat, other_len: nat, other_max: nat)
    requires
        over_budget_text(len, max) == over_budget_text(other_len, other_max),
    ensures
        len == other_len,
        max == other_max,
{
    reveal_strlit("frame is ");
    reveal_strlit(" bytes but this platform can only advertise ");
    reveal_strlit(" \u{2014} send a shorter message");
    let start = "frame is "@;
    let middle = " bytes but this platform can only advertise "@;
    let end = " \u{2014} send a shorter message"@;
    let a = middle + text::decimal(max) + end;
    let b = middle + text::decimal(other_max) + end;
    let (x, y) = (over_budget_text(len, max), over_budget_text(other_len, other_max));
    assert(x.skip(start.len() as int) =~= text::decimal(len) + a);
    assert(y.skip(start.len() as int) =~= text::decimal(other_len) + b);
    assert(a[0] == ' ' && b[0] == ' ');
    text::a_number_in_a_text_is_told_apart(len, a, other_len, b);
    assert(a.skip(middle.len() as int) =~= text::decimal(max) + end);
    assert(b.skip(middle.len() as int) =~= text::decimal(other_max) + end);
    text::a_number_in_a_text_is_told_apart(max, end, other_max, end);
}

/// Law: the explanation of a frame over the service-UUID budget tells its
/// length.
pub proof fn an_over_uuid_budget_text_tells_the_length(len: nat, other: nat)
    requires
        over_uuid_budget_text(len) == over_uuid_budget_text(other),
    ensures
        len == other,
{
    reveal_strlit("frame is ");
    reveal_strlit(" bytes but macOS can only advertise ");
    let start = "frame is "@;
    let (x, y) = (over_uuid_budget_text(len), over_uuid_budget_text(other));
    let a = x.skip((start.len() + text::decimal(len).len()) as int);
    let b = y.skip((start.len() + text::decimal(other).len()) as int);
    assert(x.skip(start.len() as int) =~= text::decimal(len) + a);
    assert(y.skip(start.len() as int) =~= text::decimal(other) + b);
    assert(a[0] == ' ' && b[0] == ' ');
    text::a_number_in_a_text_is_told_apart(len, a, other, b);
}

/// Law: the budgets of the platforms are those of a legacy frame, of the
/// extended advertisements that were measured, and of a service UUID.
pub proof fn platform_budgets()
    ensures
        LINUX_MAX_FRAME == 22,
        WINDOWS_MAX_FRAME == 156,
        MACOS_MAX_FRAME == 15,
{
}

} // verus!
