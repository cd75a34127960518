use calicomp::decoder::SENTINEL;
use calicomp::driver::{handle_input, DriverInput, DriverStep, TerminationReason};
use calicomp::registry::Registry;
use calicomp::session::Session;
use calicomp::sink::FlushPolicy;

#[test]
fn arrow_then_quit_key_terminates_and_removes_the_entry() {
    let (tx, mut rx) = tokio::sync::mpsc::channel::<Vec<u8>>(16);
    let mut reg = Registry::new();
    assert!(reg.open_session(7, tx, FlushPolicy::NonBlocking, true, 10, 4));
    assert!(reg.contains(7));
    let _initial = rx.try_recv().unwrap();

    // One frame carrying one arrow key: exactly one event, so one redraw.
    let step = reg.dispatch(7, DriverInput::Frame(b"\x1b[A".to_vec())).unwrap();
    assert_eq!(step, DriverStep::Continue);
    assert!(rx.try_recv().is_ok(), "the one key event triggered one redraw");
    assert!(rx.try_recv().is_err(), "no second event, no second redraw");

    // A quit chord terminates the session and removes its entry.
    let step = reg.dispatch(7, DriverInput::Frame(vec![0x03])).unwrap();
    assert_eq!(step, DriverStep::Terminated(TerminationReason::Quit));
    assert!(!reg.contains(7));

    // Teardown afterwards is idempotent and safe.
    reg.teardown(7);
    assert!(!reg.contains(7));
}

#[test]
fn resize_frame_applies_before_any_further_input() {
    let (tx, mut rx) = tokio::sync::mpsc::channel::<Vec<u8>>(16);
    let mut reg = Registry::new();
    assert!(reg.open_session(3, tx, FlushPolicy::NonBlocking, true, 10, 4));
    let _initial = rx.try_recv().unwrap();

    let step = reg.dispatch(3, DriverInput::Frame(vec![SENTINEL, 80, 24])).unwrap();
    assert_eq!(step, DriverStep::Continue);

    // Exactly one resize was applied and redrawn, without waiting for
    // further input: the emitted frame already carries the new geometry.
    let chunk = rx.try_recv().unwrap();
    assert_eq!(chunk[0], 80);
    assert_eq!(chunk[1], 24);
    assert_eq!(chunk.len(), 2 + 80 * 24);
    assert!(rx.try_recv().is_err());
}

#[test]
fn full_outbound_channel_never_terminates_a_session() {
    let (tx, mut rx) = tokio::sync::mpsc::channel::<Vec<u8>>(1);
    tx.try_send(b"occupied".to_vec()).unwrap();
    let mut reg = Registry::new();
    assert!(reg.open_session(9, tx, FlushPolicy::NonBlocking, true, 10, 4));

    // Two consecutive redraws both hit the full channel; both chunks are
    // dropped and the session stays registered.
    let step = reg.dispatch(9, DriverInput::Frame(b"a".to_vec())).unwrap();
    assert_eq!(step, DriverStep::Continue);
    let step = reg.dispatch(9, DriverInput::Frame(b"b".to_vec())).unwrap();
    assert_eq!(step, DriverStep::Continue);
    assert!(reg.contains(9));
    assert_eq!(rx.try_recv().unwrap().as_slice(), b"occupied");
}

#[test]
fn inbound_close_ends_the_stream_and_the_session() {
    let (tx, _rx) = tokio::sync::mpsc::channel::<Vec<u8>>(16);
    let mut reg = Registry::new();
    assert!(reg.open_session(5, tx, FlushPolicy::NonBlocking, true, 10, 4));

    let step = reg.dispatch(5, DriverInput::Closed).unwrap();
    assert_eq!(step, DriverStep::Terminated(TerminationReason::EndOfStream));
    assert!(!reg.contains(5));

    // Further traffic for the identity is a recorded no-op.
    assert!(reg.dispatch(5, DriverInput::Frame(b"a".to_vec())).is_none());
}

#[test]
fn malformed_stream_is_fatal_to_its_session_only() {
    let (tx1, _rx1) = tokio::sync::mpsc::channel::<Vec<u8>>(16);
    let (tx2, _rx2) = tokio::sync::mpsc::channel::<Vec<u8>>(16);
    let mut reg = Registry::new();
    assert!(reg.open_session(1, tx1, FlushPolicy::NonBlocking, true, 10, 4));
    assert!(reg.open_session(2, tx2, FlushPolicy::NonBlocking, true, 10, 4));

    let step = reg.dispatch(1, DriverInput::Frame(vec![0xff])).unwrap();
    assert_eq!(step, DriverStep::Terminated(TerminationReason::DecodeFailed));
    assert!(!reg.contains(1));
    assert!(reg.contains(2), "the failure never reaches another session");
}

#[test]
fn registry_resize_is_best_effort() {
    let (tx, mut rx) = tokio::sync::mpsc::channel::<Vec<u8>>(16);
    let mut reg = Registry::new();
    assert!(!reg.resize(4, 80, 24), "unknown identity is a no-op");
    assert!(reg.open_session(4, tx, FlushPolicy::NonBlocking, true, 10, 4));
    let _initial = rx.try_recv().unwrap();
    assert!(reg.resize(4, 80, 24));
    let chunk = rx.try_recv().unwrap();
    assert_eq!((chunk[0], chunk[1]), (80, 24));
}

#[test]
fn open_session_fails_cleanly_on_a_dead_transport() {
    let (tx, rx) = tokio::sync::mpsc::channel::<Vec<u8>>(1);
    drop(rx);
    let mut reg = Registry::new();
    assert!(!reg.open_session(8, tx, FlushPolicy::NonBlocking, true, 10, 4));
    assert!(!reg.contains(8));
    assert_eq!(reg.len(), 0);
}

#[test]
fn closed_outbound_transport_terminates_through_the_driver() {
    let (tx, rx) = tokio::sync::mpsc::channel::<Vec<u8>>(16);
    let mut reg = Registry::new();
    assert!(reg.open_session(6, tx, FlushPolicy::NonBlocking, true, 10, 4));
    // The reader goes away mid-session; the next redraw finds the
    // transport closed, which terminates the session and frees its entry.
    drop(rx);
    let step = reg.dispatch(6, DriverInput::Frame(b"a".to_vec())).unwrap();
    assert_eq!(step, DriverStep::Terminated(TerminationReason::TransportClosed));
    assert!(!reg.contains(6));
}

#[test]
fn tick_driven_refresh_redraws_without_input() {
    let (tx, mut rx) = tokio::sync::mpsc::channel::<Vec<u8>>(16);
    let mut reg = Registry::new();
    assert!(!reg.refresh(2), "unknown identity is a no-op");
    assert!(reg.open_session(2, tx, FlushPolicy::NonBlocking, true, 10, 4));
    let _initial = rx.try_recv().unwrap();
    // Two ticks, two redraws, no input consumed.
    assert!(reg.refresh(2));
    assert!(reg.refresh(2));
    let first = rx.try_recv().unwrap();
    let second = rx.try_recv().unwrap();
    assert_eq!(first, second);
    assert_eq!(first.len(), 2 + 10 * 4);
}

#[test]
fn driver_marks_the_session_terminated_on_close() {
    let (tx, _rx) = tokio::sync::mpsc::channel::<Vec<u8>>(4);
    let mut session = Session::new(11, tx, FlushPolicy::NonBlocking, true, 10, 4);
    let step = handle_input(&mut session, DriverInput::Closed);
    assert_eq!(step, DriverStep::Terminated(TerminationReason::EndOfStream));
    assert!(session.terminated);
}

#[test]
fn driver_stops_at_the_quit_event_and_drops_the_rest() {
    let (tx, mut rx) = tokio::sync::mpsc::channel::<Vec<u8>>(16);
    let mut session = Session::new(12, tx, FlushPolicy::NonBlocking, true, 10, 4);
    // 'q' opens the exit prompt, 'y' confirms; the trailing 'e' would
    // switch into editing mode but must never be applied.
    let step = handle_input(&mut session, DriverInput::Frame(b"qye".to_vec()));
    assert_eq!(step, DriverStep::Terminated(TerminationReason::Quit));
    assert!(session.terminated);
    // Two redraws were flushed: one per applied event.
    assert!(rx.try_recv().is_ok());
    assert!(rx.try_recv().is_ok());
    assert!(rx.try_recv().is_err());
}
