//! Transport decisions.

use poholos::rotation::Rotation;
use poholos::transport::{
    check_own_frame, check_uuid_frame, enqueue, record_on_air, relay_fits, Airtime, Outgoing,
    ReadState, ReadStep, Turn, LINUX_MAX_FRAME, MACOS_MAX_FRAME, WINDOWS_MAX_FRAME,
};
use poholos::{Frame, MAX_EXT_FRAME_LEN, MAX_FRAME_LEN};

fn test_frame() -> Frame {
    // Smallest well-formed frame: 1 flag + 2 seq + 4 src, empty payload.
    Frame::copy_from(&[0, 0, 0, 0, 0, 0, 0]).expect("valid frame")
}

#[test]
fn success_records_frame_on_air() {
    let frame = test_frame();
    let mut on_air = None;
    record_on_air(&mut on_air, frame, true);
    assert_eq!(on_air, Some(frame));
}

#[test]
fn failed_advertise_clears_belief_so_same_frame_retries() {
    let frame = test_frame();
    let mut on_air = None;

    // Turn 1: the "already on air?" guard lets the first attempt through, but
    // the registration fails.
    assert_ne!(on_air, Some(frame));
    record_on_air(&mut on_air, frame, false);
    assert_eq!(on_air, None, "a failed advertise must not leave a stale belief");

    // Turn 2: the same frame is still wanted. Because the belief was cleared,
    // the guard permits a retry rather than assuming the frame is already up.
    assert_ne!(on_air, Some(frame), "same frame is retried after a failure");
    record_on_air(&mut on_air, frame, true);
    assert_eq!(on_air, Some(frame));
}

#[test]
fn frames_enter_the_rotation_by_their_origin() {
    let own = Frame::copy_from(&[1]).unwrap();
    let relay = Frame::copy_from(&[2]).unwrap();
    let mut rotation = Rotation::new();
    enqueue(&mut rotation, &Outgoing::Relay(relay));
    enqueue(&mut rotation, &Outgoing::Own(own));
    assert_eq!(rotation.next_frame(), Some(own));
    assert_eq!(rotation.next_frame(), Some(relay));
    assert_eq!(rotation.next_frame(), Some(own));
}

#[test]
fn the_slot_registers_new_frames_and_holds_old_ones() {
    let frame = test_frame();
    let mut airtime: Airtime<22> = Airtime::new();
    assert!(matches!(airtime.next_turn(), Turn::Wait));
    airtime.enqueue(&Outgoing::Own(frame));
    // The registration fails, so the same frame is tried again.
    assert!(matches!(airtime.next_turn(), Turn::Register(f) if f == frame));
    airtime.registered(frame, false);
    assert!(matches!(airtime.next_turn(), Turn::Register(f) if f == frame));
    airtime.registered(frame, true);
    assert!(matches!(airtime.next_turn(), Turn::Hold));
    // A relay takes the slot for one turn.
    let relay = Frame::copy_from(&[9]).unwrap();
    airtime.enqueue(&Outgoing::Relay(relay));
    assert!(matches!(airtime.next_turn(), Turn::Register(f) if f == relay));
    airtime.registered(relay, true);
    assert!(matches!(airtime.next_turn(), Turn::Register(f) if f == frame));
    assert!(matches!(Airtime::<22>::default().next_turn(), Turn::Wait));
}

#[test]
fn budgets_are_checked_with_an_explanation() {
    assert_eq!(LINUX_MAX_FRAME, 22);
    assert_eq!(WINDOWS_MAX_FRAME, 156);
    assert_eq!(MACOS_MAX_FRAME, 15);
    assert_eq!(check_own_frame(22, LINUX_MAX_FRAME), Ok(()));
    assert_eq!(
        check_own_frame(22, MACOS_MAX_FRAME).unwrap_err(),
        "frame is 22 bytes but this platform can only advertise 15 \u{2014} send a shorter message"
    );
    assert!(relay_fits(15, MACOS_MAX_FRAME));
    assert!(!relay_fits(16, MACOS_MAX_FRAME));
    assert_eq!(check_uuid_frame(15), Ok(()));
    assert_eq!(
        check_uuid_frame(16).unwrap_err(),
        "frame is 16 bytes but macOS can only advertise 15 (packed into a 128-bit service UUID) \
         \u{2014} keep hearsay under 9 payload bytes and telegrams under 5 when sending from a Mac"
    );
}

#[test]
fn a_socket_is_given_up_after_sixty_four_failures_in_a_row() {
    let mut state = ReadState::<MAX_FRAME_LEN>::new();
    for _ in 0..63 {
        assert!(matches!(state.on_error(), ReadStep::Skip));
    }
    // A success starts the count anew, even if the datagram is no frame.
    assert!(matches!(state.on_datagram(&[0; 23]), ReadStep::Skip));
    for _ in 0..63 {
        assert!(matches!(state.on_error(), ReadStep::Skip));
    }
    assert!(matches!(state.on_error(), ReadStep::GiveUp));
    assert!(matches!(state.on_error(), ReadStep::GiveUp));
    let mut state = ReadState::<MAX_FRAME_LEN>::default();
    assert!(matches!(
        state.on_datagram(&[5; 22]),
        ReadStep::Forward(f) if f.as_bytes() == [5; 22]
    ));
    // A reader of extended capacity carries the longer frames too.
    let mut state = ReadState::<MAX_EXT_FRAME_LEN>::new();
    assert!(matches!(
        state.on_datagram(&[6; 211]),
        ReadStep::Forward(f) if f.as_bytes() == [6; 211]
    ));
    assert!(matches!(state.on_datagram(&[6; 212]), ReadStep::Skip));
}
