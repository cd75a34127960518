use calicomp::sink::{ByteSink, FlushPolicy, SinkError};

#[test]
fn write_buffers_and_flush_hands_over_exactly_those_bytes() {
    let (tx, mut rx) = tokio::sync::mpsc::channel::<Vec<u8>>(4);
    let mut sink = ByteSink::new(tx, FlushPolicy::NonBlocking);
    sink.write(b"hel");
    sink.write(b"lo");
    assert_eq!(sink.buffer.as_slice(), b"hello");
    assert_eq!(sink.flush(), Ok(()));
    assert!(sink.buffer.is_empty());
    assert_eq!(rx.try_recv().unwrap().as_slice(), b"hello");
}

#[test]
fn consecutive_flushes_send_separate_chunks() {
    let (tx, mut rx) = tokio::sync::mpsc::channel::<Vec<u8>>(4);
    let mut sink = ByteSink::new(tx, FlushPolicy::NonBlocking);
    sink.write(b"one");
    assert_eq!(sink.flush(), Ok(()));
    sink.write(b"two");
    assert_eq!(sink.flush(), Ok(()));
    assert_eq!(rx.try_recv().unwrap().as_slice(), b"one");
    assert_eq!(rx.try_recv().unwrap().as_slice(), b"two");
}

#[test]
fn full_channel_reports_backpressure_twice_and_drops_the_chunks() {
    let (tx, mut rx) = tokio::sync::mpsc::channel::<Vec<u8>>(1);
    // Fill the only slot so every non-blocking handoff is refused.
    tx.try_send(b"occupied".to_vec()).unwrap();
    let mut sink = ByteSink::new(tx, FlushPolicy::NonBlocking);

    sink.write(b"first");
    assert_eq!(sink.flush(), Err(SinkError::Backpressure));
    assert!(sink.buffer.is_empty(), "a refused chunk is dropped, not requeued");

    sink.write(b"second");
    assert_eq!(sink.flush(), Err(SinkError::Backpressure));
    assert!(sink.buffer.is_empty());

    // Only the pre-existing chunk was ever in the channel.
    assert_eq!(rx.try_recv().unwrap().as_slice(), b"occupied");
    assert!(rx.try_recv().is_err());
}

#[test]
fn closed_channel_reports_transport_closed_under_both_policies() {
    let (tx, rx) = tokio::sync::mpsc::channel::<Vec<u8>>(1);
    drop(rx);
    let mut sink = ByteSink::new(tx, FlushPolicy::NonBlocking);
    sink.write(b"x");
    assert_eq!(sink.flush(), Err(SinkError::TransportClosed));

    let (tx, rx) = tokio::sync::mpsc::channel::<Vec<u8>>(1);
    drop(rx);
    let mut sink = ByteSink::new(tx, FlushPolicy::Blocking);
    sink.write(b"x");
    assert_eq!(sink.flush(), Err(SinkError::TransportClosed));
}

#[test]
fn blocking_flush_delivers_when_capacity_exists() {
    let (tx, mut rx) = tokio::sync::mpsc::channel::<Vec<u8>>(1);
    let mut sink = ByteSink::new(tx, FlushPolicy::Blocking);
    sink.write(b"payload");
    assert_eq!(sink.flush(), Ok(()));
    assert_eq!(rx.try_recv().unwrap().as_slice(), b"payload");
}

#[test]
fn flush_of_an_empty_buffer_sends_an_empty_chunk() {
    let (tx, mut rx) = tokio::sync::mpsc::channel::<Vec<u8>>(1);
    let mut sink = ByteSink::new(tx, FlushPolicy::NonBlocking);
    assert_eq!(sink.flush(), Ok(()));
    assert!(rx.try_recv().unwrap().is_empty());
}
