//! Airtime rotation.

use poholos::rotation::{Rotation, OWN_DWELLS, RELAY_QUEUE};
use poholos::Frame;

fn frame(tag: u8) -> Frame {
    Frame::copy_from(&[tag]).unwrap()
}

#[test]
fn own_and_relays_alternate() {
    let mut r = Rotation::new();
    r.enqueue_own(frame(0));
    r.enqueue_relay(frame(1));
    r.enqueue_relay(frame(2));

    assert_eq!(r.next_frame(), Some(frame(0)));
    assert_eq!(r.next_frame(), Some(frame(1)));
    assert_eq!(r.next_frame(), Some(frame(0)));
    assert_eq!(r.next_frame(), Some(frame(2)));
    // Relays exhausted: the own message keeps the slot.
    assert_eq!(r.next_frame(), Some(frame(0)));
}

#[test]
fn relays_each_get_exactly_one_dwell() {
    let mut r = Rotation::new();
    r.enqueue_relay(frame(1));
    r.enqueue_relay(frame(2));

    assert_eq!(r.next_frame(), Some(frame(1)));
    assert_eq!(r.next_frame(), Some(frame(2)));
    assert_eq!(r.next_frame(), None);
}

#[test]
fn own_budget_exhausts() {
    let mut r = Rotation::new();
    r.enqueue_own(frame(7));
    for _ in 0..OWN_DWELLS {
        assert_eq!(r.next_frame(), Some(frame(7)));
    }
    assert_eq!(r.next_frame(), None);
}

#[test]
fn new_own_supersedes_and_resets_budget() {
    let mut r = Rotation::new();
    r.enqueue_own(frame(1));
    assert_eq!(r.next_frame(), Some(frame(1)));

    r.enqueue_own(frame(2));
    for _ in 0..OWN_DWELLS {
        assert_eq!(r.next_frame(), Some(frame(2)));
    }
    assert_eq!(r.next_frame(), None);
}

#[test]
fn relay_overflow_sheds_oldest() {
    let mut r = Rotation::new();
    let overflow = u8::try_from(RELAY_QUEUE).unwrap() + 1;
    for tag in 0..overflow {
        r.enqueue_relay(frame(tag));
    }
    // Frame 0 was shed; the queue starts at 1.
    assert_eq!(r.next_frame(), Some(frame(1)));
}

#[test]
fn relay_ring_survives_wraparound() {
    let mut r = Rotation::new();
    // Interleave fills and drains so head laps the physical array several
    // times, exercising the modular index math.
    let cap = u8::try_from(RELAY_QUEUE).unwrap();
    for round in 0..4u8 {
        for tag in 0..cap {
            r.enqueue_relay(frame(round * cap + tag));
        }
        for tag in 0..cap {
            assert_eq!(r.next_frame(), Some(frame(round * cap + tag)));
        }
        assert_eq!(r.next_frame(), None);
    }
}

#[test]
fn idle_rotation_yields_nothing() {
    let mut r = Rotation::new();
    assert_eq!(r.next_frame(), None);
    r.enqueue_relay(frame(1));
    assert_eq!(r.next_frame(), Some(frame(1)));
    assert_eq!(r.next_frame(), None);
}

#[test]
fn a_chatty_mesh_leaves_half_the_airtime_to_the_own_message() {
    let mut r = Rotation::new();
    r.enqueue_own(frame(200));
    let mut own = 0;
    for turn in 0..40u8 {
        for burst in 0..3u8 {
            r.enqueue_relay(frame(turn * 3 + burst));
        }
        if r.next_frame() == Some(frame(200)) {
            own += 1;
        }
    }
    assert_eq!(own, OWN_DWELLS);
}

#[test]
fn the_last_of_a_full_queue_waits_sixteen_turns_beside_an_own_message() {
    let mut r: Rotation<22> = Rotation::default();
    r.enqueue_own(frame(100));
    for tag in 0..8u8 {
        r.enqueue_relay(frame(tag));
    }
    for turn in 0..16u8 {
        let expected = if turn % 2 == 0 { 100 } else { turn / 2 };
        assert_eq!(r.next_frame(), Some(frame(expected)));
    }
}
