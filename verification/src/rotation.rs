//! Airtime rotation: time-sharing a single repeating broadcast slot.
//!
//! Radio transports built on BLE advertising have exactly one advertisement
//! on air at a time, and a frame must hold that slot across several
//! advertising events before nearby scanners reliably hear it. If every send
//! simply replaced the slot, a busy mesh would evict frames long before they
//! reached the air.
//!
//! [`Rotation`] is the pure scheduling state machine that fixes this. Callers
//! enqueue frames as *own* (originated by the local user) or *relay*
//! (forwarded for the mesh), and repeatedly ask for the next frame to put on
//! air for one dwell of [`DWELL_MILLIS`]. Policy:
//!
//! * Own and relay turns alternate, so the local message is guaranteed half
//!   the airtime no matter how chatty the mesh gets.
//! * An own message stays in rotation for [`OWN_DWELLS`] turns; a newly
//!   originated message supersedes it.
//! * Each relay gets exactly one dwell. At most [`RELAY_QUEUE`] relays wait;
//!   beyond that the oldest is shed.

use crate::wire::{FrameN, MAX_EXT_FRAME_LEN};
use vstd::prelude::*;

verus! {

/// How long each frame holds the advertising slot per turn, in milliseconds.
pub const DWELL_MILLIS: u64 = 500;

/// Total dwells granted to an own message before it leaves the rotation.
pub const OWN_DWELLS: u32 = 20;

/// Maximum relays awaiting airtime before the oldest is shed.
pub const RELAY_QUEUE: usize = 8;

/// A rotation's state, with frames by their bytes.
#[verifier::ext_equal]
pub struct RotationView {
    /// The local message and the dwells it still has.
    pub own: Option<(Seq<u8>, nat)>,
    /// The relays that wait, oldest first.
    pub relays: Seq<Seq<u8>>,
    /// Whether the previous turn served the own frame.
    pub last_was_own: bool,
}

/// What every rotation keeps: a waiting own message has dwells left, within
/// its budget, and the relay queue is within its bound.
pub open spec fn is_sound(state: RotationView) -> bool {
    &&& state.own matches Some((_, dwells)) ==> 1 <= dwells <= OWN_DWELLS
    &&& state.relays.len() <= RELAY_QUEUE
}

/// The state with nothing to air.
pub open spec fn at_rest() -> RotationView {
    RotationView { own: None, relays: Seq::empty(), last_was_own: false }
}

/// The state after the local user's message `frame` is enqueued.
pub open spec fn with_own(state: RotationView, frame: Seq<u8>) -> RotationView {
    RotationView { own: Some((frame, OWN_DWELLS as nat)), ..state }
}

/// The state after `frame` is enqueued as a relay.
pub open spec fn with_relay(state: RotationView, frame: Seq<u8>) -> RotationView {
    RotationView {
        relays: if state.relays.len() >= RELAY_QUEUE {
            state.relays.drop_first().push(frame)
        } else {
            state.relays.push(frame)
        },
        ..state
    }
}

/// Whether the next turn goes to a relay.
pub open spec fn is_relay_turn(state: RotationView) -> bool {
    state.relays.len() > 0 && (state.last_was_own || state.own is None)
}

/// Whether the next turn goes to the own message.
pub open spec fn is_own_turn(state: RotationView) -> bool {
    !is_relay_turn(state) && state.own is Some
}

/// The frame that the next turn puts on air.
pub open spec fn aired(state: RotationView) -> Option<Seq<u8>> {
    if is_relay_turn(state) {
        Some(state.relays.first())
    } else {
        own_frame(state)
    }
}

/// The state after the next turn.
pub open spec fn after_turn(state: RotationView) -> RotationView {
    if is_relay_turn(state) {
        RotationView { relays: state.relays.drop_first(), last_was_own: false, ..state }
    } else {
        match state.own {
            Some((frame, dwells)) => RotationView {
                own: if dwells > 1 {
                    Some((frame, (dwells - 1) as nat))
                } else {
                    None
                },
                last_was_own: true,
                ..state
            },
            None => state,
        }
    }
}

/// Pure scheduler deciding which frame holds the advertising slot next.
///
/// Its view is a [`RotationView`].
#[derive(Debug)]
pub struct Rotation<const CAP: usize> {
    own: Option<Own<CAP>>,
    relays: RelayRing<CAP>,
    last_was_own: bool,
}

/// A rotation of extended frames.
pub type ExtRotation = Rotation<MAX_EXT_FRAME_LEN>;

#[derive(Copy, Clone, Debug)]
struct Own<const CAP: usize> {
    frame: FrameN<CAP>,
    dwells_left: u32,
}

impl<const CAP: usize> Own<CAP> {
    #[verifier::type_invariant]
    spec fn has_dwells(self) -> bool {
        1 <= self.dwells_left <= OWN_DWELLS
    }
}

impl<const CAP: usize> View for Rotation<CAP> {
    type V = RotationView;

    closed spec fn view(&self) -> RotationView {
        RotationView {
            own: match self.own {
                Some(own) => Some((own.frame@, own.dwells_left as nat)),
                None => None,
            },
            relays: self.relays@,
            last_was_own: self.last_was_own,
        }
    }
}

impl<const CAP: usize> Rotation<CAP> {
    /// Creates an empty rotation.
    #[must_use]
    pub fn new() -> (rotation: Self)
        ensures
            rotation@ == at_rest(),
    {
        Self { own: None, relays: RelayRing::new(), last_was_own: false }
    }

    /// Enqueues the local user's message, superseding any previous one and
    /// resetting its airtime budget to [`OWN_DWELLS`].
    pub fn enqueue_own(&mut self, frame: FrameN<CAP>)
        ensures
            final(self)@ == with_own(old(self)@, frame@),
    {
        self.own = Some(Own { frame, dwells_left: OWN_DWELLS });
    }

    /// Enqueues a frame to relay for the mesh.
    ///
    /// When [`RELAY_QUEUE`] relays are already waiting, the oldest is dropped
    /// to make room.
    pub fn enqueue_relay(&mut self, frame: FrameN<CAP>)
        ensures
            final(self)@ == with_relay(old(self)@, frame@),
    {
        self.relays.push_back(frame);
    }

    /// Returns the frame that should hold the slot for the next dwell.
    ///
    /// `None` means nothing is waiting; the driver may leave whatever is
    /// currently on air and sleep until new work arrives.
    pub fn next_frame(&mut self) -> (next: Option<FrameN<CAP>>)
        ensures
            next is Some <==> aired(old(self)@) is Some,
            next matches Some(frame) ==> aired(old(self)@) == Some(frame@),
            final(self)@ == after_turn(old(self)@),
            is_sound(old(self)@),
            is_sound(final(self)@),
    {
        proof {
            use_type_invariant(&self.relays);
        }
        if let Some(own) = self.own {
            proof {
                use_type_invariant(&own);
            }
        }
        let relay_turn = !self.relays.is_empty() && (self.last_was_own || self.own.is_none());
        if relay_turn {
            self.last_was_own = false;
            return self.relays.pop_front();
        }
        match self.own {
            None => None,
            Some(own) => {
                self.last_was_own = true;
                self.own = if own.dwells_left > 1 {
                    Some(Own { frame: own.frame, dwells_left: own.dwells_left - 1 })
                } else {
                    None
                };
                Some(own.frame)
            },
        }
    }
}

impl<const CAP: usize> Default for Rotation<CAP> {
    fn default() -> (rotation: Self)
        ensures
            rotation@ == at_rest(),
    {
        Self::new()
    }
}

/// The physical index of the queue slot `k` places after `head`.
spec fn slot_after(head: int, k: int) -> int {
    if head + k < RELAY_QUEUE {
        head + k
    } else {
        head + k - RELAY_QUEUE
    }
}

/// Fixed-capacity FIFO of pending relays. Pushing onto a full ring sheds the
/// oldest entry. Its view is the frames by their bytes, oldest first.
#[derive(Debug)]
struct RelayRing<const CAP: usize> {
    slots: [FrameN<CAP>; RELAY_QUEUE],
    /// Physical index of the oldest pending relay.
    head: usize,
    len: usize,
}

impl<const CAP: usize> View for RelayRing<CAP> {
    type V = Seq<Seq<u8>>;

    closed spec fn view(&self) -> Seq<Seq<u8>> {
        Seq::new(self.len as nat, |k: int| self.slots@[slot_after(self.head as int, k)]@)
    }
}

impl<const CAP: usize> RelayRing<CAP> {
    #[verifier::type_invariant]
    spec fn in_bounds(self) -> bool {
        &&& self.head < RELAY_QUEUE
        &&& self.len <= RELAY_QUEUE
    }

    fn new() -> (ring: Self)
        ensures
            ring@ == Seq::<Seq<u8>>::empty(),
    {
        let ring = Self { slots: [FrameN::empty();RELAY_QUEUE], head: 0, len: 0 };
        assert(ring@ =~= Seq::<Seq<u8>>::empty());
        ring
    }

    fn is_empty(&self) -> (empty: bool)
        ensures
            empty == (self@.len() == 0),
    {
        self.len == 0
    }

    fn push_back(&mut self, frame: FrameN<CAP>)
        ensures
            final(self)@ == (if old(self)@.len() >= RELAY_QUEUE {
                old(self)@.drop_first().push(frame@)
            } else {
                old(self)@.push(frame@)
            }),
    {
        proof {
            use_type_invariant(&*self);
        }
        if self.len == RELAY_QUEUE {
            self.head = (self.head + 1) % RELAY_QUEUE;
            self.len = self.len - 1;
            assert(self@ =~= old(self)@.drop_first());
        }
        let ghost before = self@;
        let end: usize = (self.head + self.len) % RELAY_QUEUE;
        self.slots[end] = frame;
        self.len = self.len + 1;
        assert(self@ =~= before.push(frame@));
    }

    fn pop_front(&mut self) -> (front: Option<FrameN<CAP>>)
        ensures
            front is Some <==> old(self)@.len() > 0,
            front matches Some(frame) ==> frame@ == old(self)@.first() && final(self)@ == old(
                self,
            )@.drop_first(),
            front is None ==> final(self)@ == old(self)@,
    {
        proof {
            use_type_invariant(&*self);
        }
        if self.len == 0 {
            return None;
        }
        let frame = self.slots[self.head];
        self.head = (self.head + 1) % RELAY_QUEUE;
        self.len = self.len - 1;
        assert(self@ =~= old(self)@.drop_first());
        Some(frame)
    }
}

/// The state after `frames` are enqueued as relays, in order.
pub open spec fn with_relays(state: RotationView, frames: Seq<Seq<u8>>) -> RotationView
    decreases frames.len(),
{
    if frames.len() == 0 {
        state
    } else {
        with_relay(with_relays(state, frames.drop_last()), frames.last())
    }
}

/// The state before each turn's frame is chosen: `arrivals` holds, for each
/// turn so far and for the one to come, the relays enqueued before it.
pub open spec fn before_turn(state: RotationView, arrivals: Seq<Seq<Seq<u8>>>) -> RotationView
    decreases arrivals.len(), 1int,
{
    if arrivals.len() == 0 {
        state
    } else {
        with_relays(after_turns(state, arrivals.drop_last()), arrivals.last())
    }
}

/// The state after one turn for each of `arrivals`, which holds the relays
/// enqueued before that turn.
pub open spec fn after_turns(state: RotationView, arrivals: Seq<Seq<Seq<u8>>>) -> RotationView
    decreases arrivals.len(), 2int,
{
    if arrivals.len() == 0 {
        state
    } else {
        after_turn(before_turn(state, arrivals))
    }
}

/// How many of these turns go to the own message.
pub open spec fn own_turns(state: RotationView, arrivals: Seq<Seq<Seq<u8>>>) -> nat
    decreases arrivals.len(),
{
    if arrivals.len() == 0 {
        0
    } else {
        own_turns(state, arrivals.drop_last()) + (if is_own_turn(before_turn(state, arrivals)) {
            1nat
        } else {
            0
        })
    }
}

/// The frames that the relay turns among these put on air.
pub open spec fn relays_aired(state: RotationView, arrivals: Seq<Seq<Seq<u8>>>) -> Seq<Seq<u8>>
    decreases arrivals.len(),
{
    if arrivals.len() == 0 {
        Seq::empty()
    } else {
        let now = before_turn(state, arrivals);
        if is_relay_turn(now) {
            relays_aired(state, arrivals.drop_last()).push(now.relays.first())
        } else {
            relays_aired(state, arrivals.drop_last())
        }
    }
}

/// As many turns as wanted, with no relay arriving.
pub open spec fn quiet(turns: nat) -> Seq<Seq<Seq<u8>>> {
    Seq::new(turns, |i: int| Seq::<Seq<u8>>::empty())
}

/// The own message, if one waits.
pub open spec fn own_frame(state: RotationView) -> Option<Seq<u8>> {
    match state.own {
        Some((frame, _)) => Some(frame),
        None => None,
    }
}

/// The dwells that the own message still has.
pub open spec fn dwells_left(state: RotationView) -> nat {
    match state.own {
        Some((_, dwells)) => dwells,
        None => 0,
    }
}

/// Law: every operation keeps a sound rotation sound.
pub proof fn every_step_keeps_the_rotation_sound(state: RotationView, frame: Seq<u8>)
    requires
        is_sound(state),
    ensures
        is_sound(at_rest()),
        is_sound(with_own(state, frame)),
        is_sound(with_relay(state, frame)),
        is_sound(after_turn(state)),
{
}

/// Law: the slot stays idle exactly when nothing waits, and an idle turn
/// changes nothing.
pub proof fn only_an_empty_rotation_idles(state: RotationView)
    ensures
        aired(state) is None <==> state.own is None && state.relays.len() == 0,
        aired(state) is None ==> after_turn(state) == state,
        aired(state) is Some <==> is_own_turn(state) || is_relay_turn(state),
{
}

/// Law: while both wait, own and relay turns alternate.
pub proof fn own_and_relay_turns_alternate(state: RotationView)
    requires
        is_sound(state),
    ensures
        is_own_turn(state) && state.relays.len() > 0 ==> is_relay_turn(after_turn(state)),
        is_relay_turn(state) && state.own is Some ==> is_own_turn(after_turn(state)),
{
}

proof fn lemma_relays_leave_the_own_message(state: RotationView, frames: Seq<Seq<u8>>)
    requires
        is_sound(state),
    ensures
        is_sound(with_relays(state, frames)),
        with_relays(state, frames).own == state.own,
        with_relays(state, frames).last_was_own == state.last_was_own,
    decreases frames.len(),
{
    if frames.len() > 0 {
        lemma_relays_leave_the_own_message(state, frames.drop_last());
    }
}

proof fn lemma_sound_after_turns(state: RotationView, arrivals: Seq<Seq<Seq<u8>>>)
    requires
        is_sound(state),
    ensures
        is_sound(before_turn(state, arrivals)),
        is_sound(after_turns(state, arrivals)),
    decreases arrivals.len(),
{
    if arrivals.len() > 0 {
        lemma_sound_after_turns(state, arrivals.drop_last());
        lemma_relays_leave_the_own_message(
            after_turns(state, arrivals.drop_last()),
            arrivals.last(),
        );
    }
}

/// Law: every own turn uses one dwell and every used dwell is one own turn,
/// so an own message airs exactly as often as it has dwells, whatever relays
/// arrive.
pub proof fn an_own_turn_uses_one_dwell(state: RotationView, arrivals: Seq<Seq<Seq<u8>>>)
    requires
        is_sound(state),
    ensures
        own_turns(state, arrivals) + dwells_left(after_turns(state, arrivals)) == dwells_left(
            state,
        ),
    decreases arrivals.len(),
{
    if arrivals.len() > 0 {
        let earlier = after_turns(state, arrivals.drop_last());
        an_own_turn_uses_one_dwell(state, arrivals.drop_last());
        lemma_sound_after_turns(state, arrivals.drop_last());
        lemma_relays_leave_the_own_message(earlier, arrivals.last());
    }
}

proof fn lemma_own_gets_every_other_turn(state: RotationView, arrivals: Seq<Seq<Seq<u8>>>)
    requires
        is_sound(state),
        arrivals.len() <= 2 * dwells_left(state),
    ensures
        ({
            let now = after_turns(state, arrivals);
            let owed = if now.last_was_own || now.own is None {
                0int
            } else {
                1
            };
            2 * own_turns(state, arrivals) + owed >= arrivals.len()
        }),
    decreases arrivals.len(),
{
    if arrivals.len() > 0 {
        let earlier = after_turns(state, arrivals.drop_last());
        lemma_own_gets_every_other_turn(state, arrivals.drop_last());
        lemma_sound_after_turns(state, arrivals.drop_last());
        lemma_relays_leave_the_own_message(earlier, arrivals.last());
        an_own_turn_uses_one_dwell(state, arrivals.drop_last());
    }
}

/// Law: the own message has at least every other turn until its dwells are
/// used up, no matter how many relays wait or arrive.
pub proof fn the_own_message_has_half_the_airtime(
    state: RotationView,
    arrivals: Seq<Seq<Seq<u8>>>,
)
    requires
        is_sound(state),
        arrivals.len() <= 2 * dwells_left(state),
    ensures
        own_turns(state, arrivals) >= arrivals.len() / 2,
{
    lemma_own_gets_every_other_turn(state, arrivals);
}

/// Law: a newly originated message supersedes the one before it, starts with
/// a full budget, and is what the next own turn airs.
pub proof fn a_new_own_message_supersedes(state: RotationView, old_one: Seq<u8>, new_one: Seq<u8>)
    ensures
        with_own(with_own(state, old_one), new_one) == with_own(state, new_one),
        dwells_left(with_own(state, new_one)) == OWN_DWELLS,
        is_own_turn(with_own(state, new_one)) ==> aired(with_own(state, new_one)) == Some(new_one),
{
}

/// Law: a relay that arrives at a full queue displaces the oldest one and no
/// other; at any other queue it displaces none. Either way it waits last.
pub proof fn a_full_queue_sheds_the_oldest(state: RotationView, frame: Seq<u8>)
    requires
        is_sound(state),
    ensures
        with_relay(state, frame).relays.last() == frame,
        state.relays.len() == RELAY_QUEUE ==> with_relay(state, frame).relays.drop_last()
            == state.relays.drop_first(),
        state.relays.len() < RELAY_QUEUE ==> with_relay(state, frame).relays.drop_last()
            == state.relays,
{
    let after = with_relay(state, frame).relays;
    if state.relays.len() == RELAY_QUEUE {
        assert(after.drop_last() =~= state.relays.drop_first());
    } else {
        assert(after.drop_last() =~= state.relays);
    }
}

proof fn lemma_quiet_is_one_more(turns: nat)
    requires
        turns > 0,
    ensures
        quiet(turns).drop_last() == quiet((turns - 1) as nat),
        quiet(turns).last() == Seq::<Seq<u8>>::empty(),
{
    assert(quiet(turns).drop_last() =~= quiet((turns - 1) as nat));
}

/// Law: each waiting relay airs for exactly one turn, and they air in the
/// order in which they arrived.
pub proof fn each_relay_airs_once_in_order(state: RotationView, turns: nat)
    ensures
        relays_aired(state, quiet(turns)) + after_turns(state, quiet(turns)).relays
            == state.relays,
    decreases turns,
{
    if turns > 0 {
        let earlier = (turns - 1) as nat;
        each_relay_airs_once_in_order(state, earlier);
        lemma_quiet_is_one_more(turns);
        let now = before_turn(state, quiet(turns));
        if is_relay_turn(now) {
            assert(now.relays =~= seq![now.relays.first()] + now.relays.drop_first());
        }
        assert(relays_aired(state, quiet(turns)) + after_turns(state, quiet(turns)).relays
            =~= state.relays);
    } else {
        assert(relays_aired(state, quiet(0)) + after_turns(state, quiet(0)).relays
            =~= state.relays);
    }
}

/// Law: with no own message waiting, one relay airs per turn until none is
/// left.
pub proof fn relays_alone_air_every_turn(state: RotationView, turns: nat)
    requires
        state.own is None,
        turns <= state.relays.len(),
    ensures
        relays_aired(state, quiet(turns)) == state.relays.take(turns as int),
        after_turns(state, quiet(turns)).own is None,
        after_turns(state, quiet(turns)).relays == state.relays.skip(turns as int),
    decreases turns,
{
    if turns > 0 {
        relays_alone_air_every_turn(state, (turns - 1) as nat);
        lemma_quiet_is_one_more(turns);
    }
    assert(relays_aired(state, quiet(turns)) =~= state.relays.take(turns as int));
    assert(after_turns(state, quiet(turns)).relays =~= state.relays.skip(turns as int));
}

proof fn lemma_relays_get_every_other_turn(state: RotationView, turns: nat)
    requires
        turns <= 2 * state.relays.len(),
    ensures
        ({
            let now = after_turns(state, quiet(turns));
            let owed = if now.last_was_own {
                1int
            } else {
                0
            };
            2 * relays_aired(state, quiet(turns)).len() + owed >= turns
        }),
    decreases turns,
{
    if turns > 0 {
        lemma_relays_get_every_other_turn(state, (turns - 1) as nat);
        lemma_quiet_is_one_more(turns);
        each_relay_airs_once_in_order(state, (turns - 1) as nat);
    }
}

/// Law: a relay with `ahead` relays before it airs within twice as many turns
/// and two, even while an own message is waiting.
pub proof fn a_relay_waits_a_bounded_time(state: RotationView, ahead: nat)
    requires
        ahead < state.relays.len(),
    ensures
        relays_aired(state, quiet(2 * (ahead + 1))).len() > ahead,
        relays_aired(state, quiet(2 * (ahead + 1)))[ahead as int] == state.relays[ahead as int],
{
    let turns = 2 * (ahead + 1);
    lemma_relays_get_every_other_turn(state, turns);
    each_relay_airs_once_in_order(state, turns);
    let aired = relays_aired(state, quiet(turns));
    assert((aired + after_turns(state, quiet(turns)).relays)[ahead as int] == aired[ahead as int]);
}

/// Law: with no relay waiting, the own message airs every turn until its
/// dwells are used up, and then the slot is idle.
pub proof fn an_own_message_alone_airs_every_turn(state: RotationView, turns: nat)
    requires
        is_sound(state),
        state.relays.len() == 0,
        turns <= dwells_left(state),
    ensures
        own_turns(state, quiet(turns)) == turns,
        turns < dwells_left(state) ==> aired(after_turns(state, quiet(turns))) == own_frame(state),
        turns == dwells_left(state) ==> aired(after_turns(state, quiet(turns))) is None,
{
    lemma_alone(state, turns);
}

proof fn lemma_alone(state: RotationView, turns: nat)
    requires
        is_sound(state),
        state.relays.len() == 0,
        turns <= dwells_left(state),
    ensures
        own_turns(state, quiet(turns)) == turns,
        after_turns(state, quiet(turns)).relays.len() == 0,
        dwells_left(after_turns(state, quiet(turns))) == dwells_left(state) - turns,
        turns < dwells_left(state) ==> own_frame(after_turns(state, quiet(turns))) == own_frame(
            state,
        ),
        turns == dwells_left(state) ==> after_turns(state, quiet(turns)).own is None,
    decreases turns,
{
    if turns > 0 {
        lemma_alone(state, (turns - 1) as nat);
        lemma_quiet_is_one_more(turns);
    }
}

/// Law: whenever an own message and relays wait, two turns in a row air the
/// own message and the oldest relay.
pub proof fn two_turns_serve_both(state: RotationView)
    requires
        is_sound(state),
        state.own is Some,
        state.relays.len() > 0,
    ensures
        ({
            let (own, _) = state.own->0;
            let relay = state.relays[0];
            let (first, second) = (aired(state), aired(after_turn(state)));
            ||| first == Some(own) && second == Some(relay)
            ||| first == Some(relay) && second == Some(own)
        }),
{
}

/// Law: a turn airs the own message and uses one of its dwells, or airs the
/// oldest relay and takes it out of the queue; it does nothing else to either,
/// and it airs something whenever something waits.
pub proof fn a_turn_airs_what_it_takes(state: RotationView)
    requires
        is_sound(state),
    ensures
        ({
            let after = after_turn(state);
            let served_own = {
                &&& state.own matches Some((frame, dwells)) && aired(state) == Some(frame)
                    && after.own == (if dwells == 1 {
                    None
                } else {
                    Some((frame, (dwells - 1) as nat))
                })
                &&& after.relays == state.relays
                &&& after.last_was_own
            };
            let served_relay = {
                &&& state.relays.len() > 0
                &&& aired(state) == Some(state.relays[0])
                &&& after.relays == state.relays.skip(1)
                &&& after.own == state.own
                &&& !after.last_was_own
            };
            if state.own is None && state.relays.len() == 0 {
                aired(state) is None && after == state
            } else {
                served_own || served_relay
            }
        }),
{
    if state.relays.len() > 0 {
        assert(state.relays.drop_first() =~= state.relays.skip(1));
    }
}

/// Law: what waits alone is aired, and a turn that follows one of the own
/// message is a relay's.
pub proof fn no_turn_is_wasted(state: RotationView)
    requires
        is_sound(state),
    ensures
        state.own is None && state.relays.len() > 0 ==> aired(state) == Some(state.relays[0]),
        state.own matches Some((frame, _)) ==> (state.relays.len() == 0 ==> aired(state) == Some(
            frame,
        )),
        state.last_was_own && state.relays.len() > 0 ==> aired(state) == Some(state.relays[0]),
        state.own matches Some((frame, _)) ==> (!state.last_was_own ==> aired(state) == Some(
            frame,
        )),
{
}

/// Law: an own message enters with twenty dwells and leaves the relays alone.
/// A relay enters last, pushes out the oldest of eight, and leaves the own
/// message alone. From rest the own message airs first.
pub proof fn frames_enter_as_due(state: RotationView, own: Seq<u8>, relay: Seq<u8>)
    requires
        is_sound(state),
    ensures
        with_own(state, own).own == Some((own, 20nat)),
        with_own(state, own).relays == state.relays,
        with_own(state, own).last_was_own == state.last_was_own,
        with_relay(state, relay).own == state.own,
        with_relay(state, relay).last_was_own == state.last_was_own,
        with_relay(state, relay).relays == (if state.relays.len() == 8 {
            state.relays.skip(1)
        } else {
            state.relays
        }) + seq![relay],
        aired(at_rest()) is None,
        aired(with_relay(with_own(at_rest(), own), relay)) == Some(own),
        aired(with_own(with_relay(at_rest(), relay), own)) == Some(own),
{
    assert(with_relay(state, relay).relays =~= (if state.relays.len() == 8 {
        state.relays.skip(1)
    } else {
        state.relays
    }) + seq![relay]);
}

/// Law: the frames that the own turns and the relay turns air are the own
/// message and the relays, so what the laws on turns count is what is aired.
pub proof fn turns_air_their_frames(state: RotationView)
    ensures
        is_own_turn(state) ==> aired(state) == own_frame(state) && aired(state) is Some,
        is_relay_turn(state) ==> aired(state) == Some(state.relays.first()),
        !is_own_turn(state) && !is_relay_turn(state) ==> aired(state) is None,
{
}

/// Law: an own message has ten seconds on air, and a full queue of relays is
/// on air for four.
pub proof fn airtime_in_milliseconds()
    ensures
        OWN_DWELLS * DWELL_MILLIS == 10_000,
        RELAY_QUEUE * DWELL_MILLIS == 4_000,
{
}

} // verus!
