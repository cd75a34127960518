use calicomp::events::{KeyCode, Modifiers, StructuredEvent};
use calicomp::session::{continue_after_flush, Session, SessionError};
use calicomp::sink::{FlushPolicy, SinkError};

fn no_mods() -> Modifiers {
    Modifiers { shift: false, alt: false, ctrl: false }
}

#[test]
fn new_session_renders_its_initial_grid() {
    let (tx, _rx) = tokio::sync::mpsc::channel::<Vec<u8>>(4);
    let s = Session::new(1, tx, FlushPolicy::NonBlocking, true, 10, 4);
    assert_eq!(s.buffer.cols, 10);
    assert_eq!(s.buffer.rows, 4);
    assert_eq!(s.buffer.cells.len(), 40);
    assert_eq!(s.buffer.cells[0], b'M');
    assert_eq!(s.buffer.cells[1], b'R');
    assert!(s.buffer.cells[2..].iter().all(|&c| c == b' '));
    assert!(!s.terminated);
}

#[test]
fn resize_applies_geometry_and_redraws_at_once() {
    let (tx, mut rx) = tokio::sync::mpsc::channel::<Vec<u8>>(4);
    let mut s = Session::new(1, tx, FlushPolicy::NonBlocking, true, 10, 4);
    s.resize(80, 24).unwrap();
    assert_eq!(s.buffer.cols, 80);
    assert_eq!(s.buffer.rows, 24);
    assert_eq!(s.buffer.cells.len(), 80 * 24);
    // The redraw was flushed without waiting for further input.
    let chunk = rx.try_recv().unwrap();
    assert_eq!(chunk[0], 80);
    assert_eq!(chunk[1], 24);
    assert_eq!(chunk.len(), 2 + 80 * 24);
}

#[test]
fn resize_clamps_each_dimension_to_the_wire_limit() {
    let (tx, _rx) = tokio::sync::mpsc::channel::<Vec<u8>>(4);
    let mut s = Session::new(1, tx, FlushPolicy::NonBlocking, true, 10, 4);
    s.resize(300, 1000).unwrap();
    assert_eq!(s.buffer.cols, 255);
    assert_eq!(s.buffer.rows, 255);
}

#[test]
fn resizing_twice_to_the_same_geometry_redraws_identically() {
    let (tx, mut rx) = tokio::sync::mpsc::channel::<Vec<u8>>(4);
    let mut s = Session::new(1, tx, FlushPolicy::NonBlocking, true, 10, 4);
    s.resize(33, 7).unwrap();
    let first_cells = s.buffer.cells.clone();
    let first_chunk = rx.try_recv().unwrap();
    s.resize(33, 7).unwrap();
    let second_chunk = rx.try_recv().unwrap();
    assert_eq!(s.buffer.cells, first_cells);
    assert_eq!(first_chunk, second_chunk);
}

#[test]
fn step_applies_the_event_and_redraws() {
    let (tx, mut rx) = tokio::sync::mpsc::channel::<Vec<u8>>(8);
    let mut s = Session::new(1, tx, FlushPolicy::NonBlocking, true, 10, 4);
    // 'e' switches the application into editing mode; the grid shows it.
    let quit = s.step(StructuredEvent::Key(KeyCode::Char(b'e'), no_mods())).unwrap();
    assert!(!quit);
    assert_eq!(s.buffer.cells[0], b'E');
    let chunk = rx.try_recv().unwrap();
    assert_eq!(chunk[2], b'E');
}

#[test]
fn step_reports_the_quit_flag() {
    let (tx, _rx) = tokio::sync::mpsc::channel::<Vec<u8>>(8);
    let mut s = Session::new(1, tx, FlushPolicy::NonBlocking, true, 10, 4);
    let quit = s.step(StructuredEvent::Key(KeyCode::Char(b'q'), no_mods())).unwrap();
    assert!(!quit, "entering the exit prompt is not yet quitting");
    assert_eq!(s.buffer.cells[0], b'X');
    let quit = s.step(StructuredEvent::Key(KeyCode::Char(b'y'), no_mods())).unwrap();
    assert!(quit);
}

#[test]
fn step_resize_event_goes_through_the_geometry_path() {
    let (tx, _rx) = tokio::sync::mpsc::channel::<Vec<u8>>(8);
    let mut s = Session::new(1, tx, FlushPolicy::NonBlocking, true, 10, 4);
    let quit = s.step(StructuredEvent::Resize(40, 12)).unwrap();
    assert!(!quit);
    assert_eq!(s.buffer.cols, 40);
    assert_eq!(s.buffer.rows, 12);
    assert_eq!(s.buffer.cells.len(), 40 * 12);
}

#[test]
fn backpressure_does_not_fail_a_step() {
    let (tx, _rx) = tokio::sync::mpsc::channel::<Vec<u8>>(1);
    tx.try_send(b"occupied".to_vec()).unwrap();
    let mut s = Session::new(1, tx, FlushPolicy::NonBlocking, true, 10, 4);
    // Both redraws find the channel full; the chunks are dropped and the
    // session goes on.
    s.step(StructuredEvent::Key(KeyCode::Char(b'a'), no_mods())).unwrap();
    s.step(StructuredEvent::Key(KeyCode::Char(b'b'), no_mods())).unwrap();
    assert!(!s.terminated);
}

#[test]
fn only_a_closed_transport_ends_the_continuation_decision() {
    assert_eq!(continue_after_flush(Ok(())), Ok(()));
    assert_eq!(continue_after_flush(Err(SinkError::Backpressure)), Ok(()));
    assert_eq!(
        continue_after_flush(Err(SinkError::TransportClosed)),
        Err(SessionError::TransportClosed)
    );
}

#[test]
fn closed_transport_fails_a_step() {
    let (tx, rx) = tokio::sync::mpsc::channel::<Vec<u8>>(1);
    drop(rx);
    let mut s = Session::new(1, tx, FlushPolicy::NonBlocking, true, 10, 4);
    assert!(s.step(StructuredEvent::Key(KeyCode::Char(b'a'), no_mods())).is_err());
}
