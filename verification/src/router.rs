//! Flood routing: the pure decision engine.
//!
//! A [`Router`] owns a node's routing state, its own wire id and a
//! [`SeenCache`], and makes one decision per received frame. It performs no
//! I/O: the caller feeds in raw bytes via [`Router::ingest`] and acts on the
//! returned [`RouteAction`].
//!
//! # Routing rules
//!
//! In order, for every decodable frame:
//!
//! 1. Packets whose source is this node are ignored ([`IgnoreReason::Own`]):
//!    our own advertisements echo back from the radio.
//! 2. Duplicates (by dedup key) are ignored.
//! 3. **Deliver locally first**: hearsay is always delivered; a telegram is
//!    delivered iff addressed to this node.
//! 4. **Then gate forwarding on the TTL**: hearsay is re-broadcast if the TTL
//!    allows; a telegram for another node is forwarded if the TTL allows; a
//!    telegram delivered here is never forwarded.

use crate::error::{WireError, WireErrorKind};
use crate::node_id::WireId;
use crate::packet;
use crate::packet::{PacketN, PacketView, MAX_CAPACITY};
use crate::seen;
use crate::seen::SeenCache;
use crate::wire;
use crate::wire::{decode, encode, FrameN, HEADER_LEN_TELEGRAM, MAX_EXT_FRAME_LEN, MAX_FRAME_LEN};
use vstd::prelude::*;

verus! {

/// What a node should do with a frame it just received.
///
/// `Deliver*` variants carry the decoded packet to show the user; `*Forward`
/// variants carry the re-encoded frame (TTL already decremented) to hand back
/// to the transport.
#[derive(Copy, Clone, Eq, Debug)]
pub enum RouteActionN<const CAP: usize> {
    /// Show this packet to the local user; do not forward.
    Deliver(PacketN<CAP>),
    /// Show this packet to the local user and re-broadcast the frame.
    DeliverAndForward(PacketN<CAP>, FrameN<CAP>),
    /// Not for us: re-broadcast the frame without local delivery.
    Forward(FrameN<CAP>),
    /// Do nothing; the reason says why.
    Ignore(IgnoreReason),
}

/// The action on a legacy frame.
pub type RouteAction = RouteActionN<MAX_FRAME_LEN>;

/// The action on a frame of extended capacity.
pub type ExtRouteAction = RouteActionN<MAX_EXT_FRAME_LEN>;

/// Why a received frame produced no deliver or forward action.
#[derive(Copy, Clone, PartialEq, Eq, Structural, Debug)]
#[non_exhaustive]
pub enum IgnoreReason {
    /// The packet originated from this node (our own echo).
    Own,
    /// The packet was already handled (seen-cache hit).
    Duplicate,
    /// A telegram for another node arrived with no hops left.
    ExpiredTtl,
}

/// What a routing action says: packets by what they say, frames by their
/// bytes.
pub enum ActionView {
    Deliver(PacketView),
    DeliverAndForward(PacketView, Seq<u8>),
    Forward(Seq<u8>),
    Ignore(IgnoreReason),
}

impl<const CAP: usize> View for RouteActionN<CAP> {
    type V = ActionView;

    open spec fn view(&self) -> ActionView {
        match *self {
            RouteActionN::Deliver(packet) => ActionView::Deliver(packet@),
            RouteActionN::DeliverAndForward(packet, frame) => ActionView::DeliverAndForward(
                packet@,
                frame@,
            ),
            RouteActionN::Forward(frame) => ActionView::Forward(frame@),
            RouteActionN::Ignore(reason) => ActionView::Ignore(reason),
        }
    }
}

impl<const CAP: usize> PartialEq for RouteActionN<CAP> {
    fn eq(&self, other: &Self) -> (same: bool) {
        match (*self, *other) {
            (RouteActionN::Deliver(a), RouteActionN::Deliver(b)) => a == b,
            (
                RouteActionN::DeliverAndForward(a, f),
                RouteActionN::DeliverAndForward(b, g),
            ) => a == b && f == g,
            (RouteActionN::Forward(f), RouteActionN::Forward(g)) => f == g,
            (RouteActionN::Ignore(r), RouteActionN::Ignore(s)) => r == s,
            _ => false,
        }
    }
}

impl<const CAP: usize> vstd::std_specs::cmp::PartialEqSpecImpl for RouteActionN<CAP> {
    open spec fn obeys_eq_spec() -> bool {
        true
    }

    open spec fn eq_spec(&self, other: &Self) -> bool {
        self@ == other@
    }
}

/// What the node `local` that remembers the keys `seen` does with a packet it
/// hears.
pub open spec fn routed(local: u32, seen: Seq<u64>, packet: PacketView) -> ActionView {
    if packet.src == local {
        ActionView::Ignore(IgnoreReason::Own)
    } else if seen.contains(packet::key_of(packet)) {
        ActionView::Ignore(IgnoreReason::Duplicate)
    } else if packet.dest is None && packet.ttl > 1 {
        ActionView::DeliverAndForward(packet, wire::encoded(packet::after_hop(packet)))
    } else if packet.dest is None || packet.dest == Some(local) {
        ActionView::Deliver(packet)
    } else if packet.ttl > 1 {
        ActionView::Forward(wire::encoded(packet::after_hop(packet)))
    } else {
        ActionView::Ignore(IgnoreReason::ExpiredTtl)
    }
}

/// The keys that the node `local` remembers after hearing a packet: its own
/// packets leave no trace.
pub open spec fn seen_after(local: u32, seen: Seq<u64>, packet: PacketView) -> Seq<u64> {
    if packet.src == local {
        seen
    } else {
        seen::heard(seen, packet::key_of(packet))
    }
}

/// A router's state: the node's raw wire id and the remembered keys.
pub struct RouterView {
    /// Raw wire id of this node.
    pub local: u32,
    /// Remembered dedup keys, stalest first.
    pub seen: Seq<u64>,
}

/// Per-node routing state machine.
///
/// Its view is a [`RouterView`].
#[derive(Debug)]
pub struct Router {
    local: WireId,
    seen: SeenCache,
}

impl View for Router {
    type V = RouterView;

    closed spec fn view(&self) -> RouterView {
        RouterView { local: self.local@, seen: self.seen@ }
    }
}

impl Router {
    /// Creates a router for the node identified by `local`.
    #[must_use]
    pub fn new(local: WireId) -> (router: Self)
        ensures
            router@ == (RouterView { local: local@, seen: Seq::empty() }),
            seen::remembers_well(router@.seen),
    {
        Self { local, seen: SeenCache::new() }
    }

    /// Returns this node's wire id.
    #[must_use]
    pub fn local(&self) -> (local: WireId)
        ensures
            local@ == self@.local,
            seen::remembers_well(self@.seen),
    {
        proof {
            use_type_invariant(&self.seen);
        }
        self.local
    }

    /// Encodes a locally created packet and registers it as seen.
    ///
    /// Registering prevents the node from re-delivering its own message when
    /// the transport echoes it back. Hand the returned frame to the transport
    /// for broadcast.
    pub fn originate<const CAP: usize>(&mut self, packet: &PacketN<CAP>) -> (frame: FrameN<CAP>)
        ensures
            frame@ == wire::encoded(packet@),
            packet::is_valid(packet@, CAP as nat),
            final(self)@ == (RouterView {
                local: old(self)@.local,
                seen: seen::heard(old(self)@.seen, packet::key_of(packet@)),
            }),
            seen::remembers_well(old(self)@.seen),
            seen::remembers_well(final(self)@.seen),
    {
        let _newly_seen = self.seen.insert(packet.dedup_key());
        encode(packet)
    }

    /// Processes raw received bytes and decides what to do with them.
    ///
    /// # Errors
    /// Returns [`WireError`] if the bytes do not decode as a valid frame;
    /// callers in radio environments should expect and tolerate this for
    /// foreign advertisements that slip through transport filtering.
    pub fn ingest<const CAP: usize>(&mut self, bytes: &[u8]) -> (got: Result<
        RouteActionN<CAP>,
        WireError,
    >)
        requires
            HEADER_LEN_TELEGRAM <= CAP <= MAX_CAPACITY,
        ensures
            match wire::decoded(bytes@, CAP as nat) {
                Err(kind) => {
                    &&& got matches Err(error) && error@ == kind
                    &&& final(self)@ == old(self)@
                },
                Ok(packet) => {
                    &&& got matches Ok(action) && action@ == routed(
                        old(self)@.local,
                        old(self)@.seen,
                        packet,
                    )
                    &&& final(self)@ == (RouterView {
                        local: old(self)@.local,
                        seen: seen_after(old(self)@.local, old(self)@.seen, packet),
                    })
                },
            },
            seen::remembers_well(old(self)@.seen),
            seen::remembers_well(final(self)@.seen),
    {
        proof {
            use_type_invariant(&self.seen);
        }
        let mut packet: PacketN<CAP> = match decode(bytes) {
            Ok(packet) => packet,
            Err(error) => return Err(error),
        };
        if packet.src() == self.local {
            return Ok(RouteActionN::Ignore(IgnoreReason::Own));
        }
        if !self.seen.insert(packet.dedup_key()) {
            return Ok(RouteActionN::Ignore(IgnoreReason::Duplicate));
        }
        match packet.dest() {
            // Hearsay: deliver to everyone, then forward if hops remain.
            None => {
                let deliver = packet;
                if packet.hop() {
                    Ok(RouteActionN::DeliverAndForward(deliver, encode(&packet)))
                } else {
                    Ok(RouteActionN::Deliver(deliver))
                }
            },
            Some(dest) => if dest == self.local {
                // Telegram for us: the destination consumes it.
                Ok(RouteActionN::Deliver(packet))
            } else if packet.hop() {
                // Telegram for someone else: relay while hops remain.
                Ok(RouteActionN::Forward(encode(&packet)))
            } else {
                Ok(RouteActionN::Ignore(IgnoreReason::ExpiredTtl))
            },
        }
    }

    /// Processes raw received bytes and decides what to show and what to
    /// relay. What does not decode is routine radio noise: nothing follows
    /// from it.
    pub fn react<const CAP: usize>(&mut self, bytes: &[u8]) -> (reaction: Reaction<CAP>)
        requires
            HEADER_LEN_TELEGRAM <= CAP <= MAX_CAPACITY,
        ensures
            reaction@ == self::reaction(old(self)@, bytes@, CAP as nat),
            final(self)@ == after_hearing(old(self)@, bytes@, CAP as nat),
            reaction@.show matches Some(packet) ==> packet.dest is None || packet.dest == Some(
                old(self)@.local,
            ),
            seen::remembers_well(old(self)@.seen),
            seen::remembers_well(final(self)@.seen),
    {
        match self.ingest(bytes) {
            Ok(RouteActionN::Deliver(packet)) => Reaction { show: Some(packet), relay: None },
            Ok(RouteActionN::DeliverAndForward(packet, relay)) => Reaction {
                show: Some(packet),
                relay: Some(relay),
            },
            Ok(RouteActionN::Forward(relay)) => Reaction { show: None, relay: Some(relay) },
            Ok(RouteActionN::Ignore(_)) => Reaction { show: None, relay: None },
            Err(_) => Reaction { show: None, relay: None },
        }
    }
}

/// What follows from a received frame: a packet to show, a frame to relay, or
/// both, or neither.
#[derive(Copy, Clone, Debug)]
pub struct Reaction<const CAP: usize> {
    /// Show this packet to the local user.
    pub show: Option<PacketN<CAP>>,
    /// Hand this frame to the transport as a relay.
    pub relay: Option<FrameN<CAP>>,
}

/// What a [`Reaction`] says, the frame by its bytes.
pub struct ReactionView {
    pub show: Option<PacketView>,
    pub relay: Option<Seq<u8>>,
}

impl<const CAP: usize> View for Reaction<CAP> {
    type V = ReactionView;

    open spec fn view(&self) -> ReactionView {
        ReactionView {
            show: match self.show {
                Some(packet) => Some(packet@),
                None => None,
            },
            relay: match self.relay {
                Some(frame) => Some(frame@),
                None => None,
            },
        }
    }
}

/// What a routing action asks for.
pub open spec fn reaction_to(action: ActionView) -> ReactionView {
    match action {
        ActionView::Deliver(packet) => ReactionView { show: Some(packet), relay: None },
        ActionView::DeliverAndForward(packet, relay) => ReactionView {
            show: Some(packet),
            relay: Some(relay),
        },
        ActionView::Forward(relay) => ReactionView { show: None, relay: Some(relay) },
        ActionView::Ignore(_) => ReactionView { show: None, relay: None },
    }
}

/// What follows from received bytes at capacity `cap`.
pub open spec fn reaction(router: RouterView, bytes: Seq<u8>, cap: nat) -> ReactionView {
    match wire::decoded(bytes, cap) {
        Ok(packet) => reaction_to(routed(router.local, router.seen, packet)),
        Err(_) => ReactionView { show: None, relay: None },
    }
}

/// The routing state after received bytes at capacity `cap`.
pub open spec fn after_hearing(router: RouterView, bytes: Seq<u8>, cap: nat) -> RouterView {
    match wire::decoded(bytes, cap) {
        Ok(packet) => RouterView { seen: seen_after(router.local, router.seen, packet), ..router },
        Err(_) => router,
    }
}

/// Law: a node ignores the echo of its own packets and remembers nothing of
/// them.
pub proof fn own_echoes_are_ignored(local: u32, seen: Seq<u64>, packet: PacketView)
    requires
        packet.src == local,
    ensures
        routed(local, seen, packet) == ActionView::Ignore(IgnoreReason::Own),
        seen_after(local, seen, packet) == seen,
{
}

proof fn lemma_a_heard_key_is_remembered(seen: Seq<u64>, key: u64)
    ensures
        seen::heard(seen, key).contains(key),
{
    let after = seen::heard(seen, key);
    assert(after[after.len() - 1] == key);
}

/// Law: a message that was just heard is a duplicate when it arrives again,
/// whatever route, and so whatever TTL, it arrives with.
pub proof fn a_message_heard_again_is_a_duplicate(
    local: u32,
    seen: Seq<u64>,
    first: PacketView,
    second: PacketView,
)
    requires
        packet::same_message(first, second),
        first.src != local,
    ensures
        routed(local, seen_after(local, seen, first), second) == ActionView::Ignore(
            IgnoreReason::Duplicate,
        ),
{
    packet::the_key_ignores_the_ttl(first, second);
    lemma_a_heard_key_is_remembered(seen, packet::key_of(first));
}

/// Law: a message stays known while fewer than
/// [`SEEN_CAPACITY`](crate::SEEN_CAPACITY) other messages are heard, however
/// often each of them is heard: it is ignored when it arrives again.
pub proof fn a_message_stays_known(
    local: u32,
    seen: Seq<u64>,
    first: PacketView,
    later: Seq<u64>,
    second: PacketView,
)
    requires
        seen::remembers_well(seen),
        packet::same_message(first, second),
        first.src != local,
        later.to_set().remove(packet::key_of(first)).len() < seen::SEEN_CAPACITY,
    ensures
        routed(local, seen::heard_all(seen_after(local, seen, first), later), second)
            == ActionView::Ignore(IgnoreReason::Duplicate),
{
    packet::the_key_ignores_the_ttl(first, second);
    seen::a_key_outlasts_fewer_other_keys(seen, packet::key_of(first), later);
}

/// Law: a message that this node originated is never delivered back to it nor
/// forwarded, whoever sends it back.
pub proof fn an_originated_message_does_not_come_back(
    local: u32,
    seen: Seq<u64>,
    sent: PacketView,
    echo: PacketView,
)
    requires
        packet::same_message(sent, echo),
    ensures
        routed(local, seen::heard(seen, packet::key_of(sent)), echo) is Ignore,
{
    packet::the_key_ignores_the_ttl(sent, echo);
    lemma_a_heard_key_is_remembered(seen, packet::key_of(sent));
}

/// Law: a new message is delivered exactly to those it is for, which is
/// everyone for hearsay and the addressee for a telegram.
pub proof fn a_new_message_reaches_those_it_is_for(local: u32, seen: Seq<u64>, packet: PacketView)
    requires
        packet.src != local,
        !seen.contains(packet::key_of(packet)),
    ensures
        (packet.dest is None || packet.dest == Some(local)) <==> {
            ||| routed(local, seen, packet) == ActionView::Deliver(packet)
            ||| routed(local, seen, packet) matches ActionView::DeliverAndForward(
                delivered,
                _,
            ) && delivered == packet
        },
{
}

/// Law: a new message is forwarded exactly while hops remain, unless it is a
/// telegram that has arrived.
pub proof fn a_new_message_travels_while_hops_remain(
    local: u32,
    seen: Seq<u64>,
    packet: PacketView,
)
    requires
        packet.src != local,
        !seen.contains(packet::key_of(packet)),
    ensures
        (packet.ttl > 1 && packet.dest != Some(local)) <==> (routed(local, seen, packet) is Forward
            || routed(local, seen, packet) is DeliverAndForward),
{
}

/// Law: what is forwarded is the same message with one hop fewer, and every
/// node that has the capacity can decode it.
pub proof fn a_forwarded_frame_is_the_message_one_hop_on(
    local: u32,
    seen: Seq<u64>,
    packet: PacketView,
    cap: nat,
)
    requires
        packet::is_valid(packet, cap),
    ensures
        routed(local, seen, packet) matches ActionView::Forward(frame) ==> wire::decoded(frame, cap)
            == Ok::<PacketView, WireErrorKind>(
            PacketView { ttl: (packet.ttl - 1) as u8, ..packet },
        ),
        routed(local, seen, packet) matches ActionView::DeliverAndForward(_, frame)
            ==> wire::decoded(frame, cap) == Ok::<PacketView, WireErrorKind>(
            PacketView { ttl: (packet.ttl - 1) as u8, ..packet },
        ),
{
    packet::a_hop_keeps_the_message(packet, cap);
    wire::decoding_undoes_encoding(packet::after_hop(packet), cap);
}

/// Law: hearsay floods a line of nodes. The node after `hops` relays, if it
/// has not heard the message, delivers it with the TTL that is left and
/// relays it one hop further, as long as more than one hop is left there.
pub proof fn hearsay_floods_a_line_of_nodes(
    local: u32,
    seen: Seq<u64>,
    packet: PacketView,
    hops: nat,
)
    requires
        packet.dest is None,
        packet.src != local,
        !seen.contains(packet::key_of(packet)),
        hops + 1 < packet.ttl,
    ensures
        packet::after_hops(packet, hops).ttl == packet.ttl - hops,
        routed(local, seen, packet::after_hops(packet, hops)) == ActionView::DeliverAndForward(
            packet::after_hops(packet, hops),
            wire::encoded(packet::after_hop(packet::after_hops(packet, hops))),
        ),
{
    packet::the_ttl_bounds_the_journey(packet, hops);
    packet::the_key_ignores_the_ttl(packet, packet::after_hops(packet, hops));
}

/// Law: hearing a packet forgets no other message, but for the stalest one
/// where a full cache hears a new message. A packet of another node is
/// remembered from then on, and nothing else comes in.
pub proof fn hearing_forgets_no_other_message(
    local: u32,
    seen: Seq<u64>,
    packet: PacketView,
    known: u64,
)
    requires
        seen::remembers_well(seen),
    ensures
        seen.contains(known) ==> seen_after(local, seen, packet).contains(known) || (seen.len()
            == seen::SEEN_CAPACITY && !seen.contains(packet::key_of(packet)) && known == seen[0]),
        packet.src != local ==> seen_after(local, seen, packet).contains(packet::key_of(packet)),
        seen_after(local, seen, packet).contains(known) ==> seen.contains(known) || known
            == packet::key_of(packet),
        seen::remembers_well(seen_after(local, seen, packet)),
{
    seen::hearing_forgets_no_other_key(seen, packet::key_of(packet), known);
    seen::hearing_keeps_the_cache_well(seen, packet::key_of(packet));
}

/// Law: a message of another node that is remembered is ignored as a
/// duplicate, and one that is new never is.
pub proof fn exactly_what_is_remembered_is_a_duplicate(
    local: u32,
    seen: Seq<u64>,
    packet: PacketView,
)
    requires
        packet.src != local,
    ensures
        seen.contains(packet::key_of(packet)) <==> routed(local, seen, packet)
            == ActionView::Ignore(IgnoreReason::Duplicate),
{
}

/// Law: of the new messages only telegrams for other nodes with no hops left
/// are ignored, and as expired.
pub proof fn only_expired_telegrams_are_dropped(local: u32, seen: Seq<u64>, packet: PacketView)
    requires
        packet.src != local,
        !seen.contains(packet::key_of(packet)),
    ensures
        routed(local, seen, packet) is Ignore <==> packet.dest is Some && packet.dest != Some(local)
            && packet.ttl <= 1,
        routed(local, seen, packet) is Ignore ==> routed(local, seen, packet)
            == ActionView::Ignore(IgnoreReason::ExpiredTtl),
{
}

/// The routing state after the frames `frames`, in order.
pub open spec fn after_hearing_all(router: RouterView, frames: Seq<Seq<u8>>, cap: nat) -> RouterView
    decreases frames.len(),
{
    if frames.len() == 0 {
        router
    } else {
        after_hearing(after_hearing_all(router, frames.drop_last(), cap), frames.last(), cap)
    }
}

/// The keys of the packets of other nodes among `frames`, in order.
spec fn keys_heard(local: u32, frames: Seq<Seq<u8>>, cap: nat) -> Seq<u64>
    decreases frames.len(),
{
    if frames.len() == 0 {
        Seq::empty()
    } else {
        let earlier = keys_heard(local, frames.drop_last(), cap);
        match wire::decoded(frames.last(), cap) {
            Ok(packet) => if packet.src == local {
                earlier
            } else {
                earlier.push(packet::key_of(packet))
            },
            Err(_) => earlier,
        }
    }
}

proof fn lemma_hearing_all_hears_the_keys(router: RouterView, frames: Seq<Seq<u8>>, cap: nat)
    ensures
        after_hearing_all(router, frames, cap).local == router.local,
        after_hearing_all(router, frames, cap).seen == seen::heard_all(
            router.seen,
            keys_heard(router.local, frames, cap),
        ),
    decreases frames.len(),
{
    if frames.len() > 0 {
        lemma_hearing_all_hears_the_keys(router, frames.drop_last(), cap);
        let earlier = keys_heard(router.local, frames.drop_last(), cap);
        if wire::decoded(frames.last(), cap) is Ok {
            let key = packet::key_of(wire::decoded(frames.last(), cap)->Ok_0);
            assert(earlier.push(key).drop_last() =~= earlier);
        }
    }
}

/// Whether every frame is noise, of this node, of the message `first`, or of
/// one of `messages`.
pub open spec fn frames_are_of(
    frames: Seq<Seq<u8>>,
    cap: nat,
    local: u32,
    first: PacketView,
    messages: Set<PacketView>,
) -> bool {
    forall|i: int|
        0 <= i < frames.len() ==> (#[trigger] wire::decoded(frames[i], cap) matches Ok(packet) ==> {
            ||| packet.src == local
            ||| packet::same_message(packet, first)
            ||| exists|message: PacketView|
                messages.contains(message) && packet::same_message(packet, message)
        })
}

proof fn lemma_keys_are_of(
    frames: Seq<Seq<u8>>,
    cap: nat,
    local: u32,
    first: PacketView,
    messages: Set<PacketView>,
)
    requires
        frames_are_of(frames, cap, local, first, messages),
    ensures
        forall|key: u64|
            keys_heard(local, frames, cap).contains(key) && key != packet::key_of(first)
                ==> messages.map(|message: PacketView| packet::key_of(message)).contains(key),
    decreases frames.len(),
{
    let keys = keys_heard(local, frames, cap);
    let allowed = messages.map(|message: PacketView| packet::key_of(message));
    if frames.len() > 0 {
        let earlier = frames.drop_last();
        assert forall|i: int| 0 <= i < earlier.len() implies (
        #[trigger] wire::decoded(earlier[i], cap) matches Ok(packet) ==> {
            ||| packet.src == local
            ||| packet::same_message(packet, first)
            ||| exists|message: PacketView|
                messages.contains(message) && packet::same_message(packet, message)
        }) by {
            assert(earlier[i] == frames[i]);
        }
        lemma_keys_are_of(earlier, cap, local, first, messages);
        assert(frames[frames.len() - 1] == frames.last());
        assert forall|key: u64|
            keys.contains(key) && key != packet::key_of(first) implies allowed.contains(key) by {
            let i = choose|i: int| 0 <= i < keys.len() && keys[i] == key;
            let before = keys_heard(local, earlier, cap);
            if i < before.len() {
                assert(before[i] == key);
            } else {
                let packet = wire::decoded(frames.last(), cap)->Ok_0;
                assert(key == packet::key_of(packet));
                if packet::same_message(packet, first) {
                    packet::the_key_ignores_the_ttl(packet, first);
                }
                let message = choose|message: PacketView|
                    messages.contains(message) && packet::same_message(packet, message);
                packet::the_key_ignores_the_ttl(packet, message);
            }
        }
    }
}

/// Law: a message that was heard is ignored when it arrives again over another
/// route, whatever frames of fewer than [`SEEN_CAPACITY`](crate::SEEN_CAPACITY)
/// other messages arrived in between, and however often.
pub proof fn a_heard_message_outlasts_other_frames(
    router: RouterView,
    first: PacketView,
    later: Seq<Seq<u8>>,
    messages: Set<PacketView>,
    second: PacketView,
    cap: nat,
)
    requires
        seen::remembers_well(router.seen),
        packet::is_valid(first, cap),
        packet::is_valid(second, cap),
        packet::same_message(first, second),
        first.src != router.local,
        messages.finite(),
        messages.len() < seen::SEEN_CAPACITY,
        frames_are_of(later, cap, router.local, first, messages),
    ensures
        ({
            let heard = after_hearing(router, wire::encoded(first), cap);
            let now = after_hearing_all(heard, later, cap);
            &&& now.local == router.local
            &&& routed(now.local, now.seen, second) == ActionView::Ignore(IgnoreReason::Duplicate)
            &&& reaction(now, wire::encoded(second), cap) == (ReactionView {
                show: None,
                relay: None,
            })
        }),
{
    let key = packet::key_of(first);
    let heard = after_hearing(router, wire::encoded(first), cap);
    let keys = keys_heard(router.local, later, cap);
    let allowed = messages.map(|message: PacketView| packet::key_of(message));
    wire::decoding_undoes_encoding(first, cap);
    wire::decoding_undoes_encoding(second, cap);
    lemma_hearing_all_hears_the_keys(heard, later, cap);
    lemma_keys_are_of(later, cap, router.local, first, messages);
    vstd::set_lib::lemma_map_size_bound(
        messages,
        allowed,
        |message: PacketView| packet::key_of(message),
    );
    assert(keys.to_set().remove(key).subset_of(allowed));
    vstd::set_lib::lemma_len_subset(keys.to_set().remove(key), allowed);
    a_message_stays_known(router.local, router.seen, first, keys, second);
}

/// Law: what follows from a frame. Its packet is shown exactly if it is new, of
/// another node, and for everyone or for this node. It is relayed, one hop on,
/// exactly if it is new, of another node, has hops left and has not arrived.
pub proof fn a_frame_is_shown_and_relayed_as_due(router: RouterView, packet: PacketView, cap: nat)
    requires
        packet::is_valid(packet, cap),
    ensures
        ({
            let got = reaction(router, wire::encoded(packet), cap);
            let fresh = packet.src != router.local && !router.seen.contains(packet::key_of(packet));
            let ours = packet.dest is None || packet.dest == Some(router.local);
            &&& got.show is Some <==> fresh && ours
            &&& got.show matches Some(shown) ==> shown == packet
            &&& got.relay is Some <==> fresh && packet.ttl > 1 && packet.dest != Some(router.local)
            &&& got.relay matches Some(frame) ==> wire::decoded(frame, cap) == Ok::<
                PacketView,
                WireErrorKind,
            >(PacketView { ttl: (packet.ttl - 1) as u8, ..packet })
        }),
{
    wire::decoding_undoes_encoding(packet, cap);
    a_forwarded_frame_is_the_message_one_hop_on(router.local, router.seen, packet, cap);
}

/// Law: what does not decode leads to nothing and changes nothing, and no
/// frame makes a node take another for itself.
pub proof fn noise_leads_to_nothing(router: RouterView, bytes: Seq<u8>, cap: nat)
    ensures
        wire::decoded(bytes, cap) is Err ==> reaction(router, bytes, cap) == (ReactionView {
            show: None,
            relay: None,
        }) && after_hearing(router, bytes, cap) == router,
        after_hearing(router, bytes, cap).local == router.local,
{
}

/// Law: a frame makes the router forget no message but the stalest one of a
/// full cache.
pub proof fn a_frame_forgets_no_other_message(
    router: RouterView,
    bytes: Seq<u8>,
    cap: nat,
    known: u64,
)
    requires
        seen::remembers_well(router.seen),
        router.seen.contains(known),
        router.seen.len() < seen::SEEN_CAPACITY || known != router.seen[0],
    ensures
        after_hearing(router, bytes, cap).seen.contains(known),
{
    if wire::decoded(bytes, cap) is Ok {
        hearing_forgets_no_other_message(
            router.local,
            router.seen,
            wire::decoded(bytes, cap)->Ok_0,
            known,
        );
    }
}

/// Law: two routing actions are equal exactly if they ask for the same.
pub proof fn actions_are_equal_by_what_they_ask<const CAP: usize>(a: RouteActionN<CAP>, b: RouteActionN<CAP>)
    ensures
        vstd::std_specs::cmp::PartialEqSpec::eq_spec(&a, &b) <==> a@ == b@,
{
}

} // verus!
