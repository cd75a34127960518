//! The byte sink adapter: the seam between the rendering surface's
//! synchronous write/flush contract and the asynchronous, flow-controlled
//! outbound transport.
//!
//! `write` appends to an internal buffer and always succeeds; `flush` takes
//! the buffer whole and hands it to a bounded channel. Two delivery
//! policies exist: a blocking handoff that waits for channel capacity, and
//! a non-blocking one that drops the chunk and reports backpressure when
//! the channel is full — the render path must never stall, so an unsent
//! chunk trades a corrupted-looking frame for liveness.
//!
//! What reached the channel is part of the adapter's contract: the ghost
//! log `sent` records every chunk the channel accepted, in order, and
//! `flush` promises that success delivers exactly the bytes written since
//! the last flush, in write order, and that failure delivers nothing.

use vstd::prelude::*;

verus! {

/// How a flush hands its chunk to the transport.
#[derive(Clone, Copy, Debug, PartialEq, Eq, Structural)]
pub enum FlushPolicy {
    /// Wait until the channel accepts the chunk or is closed.
    Blocking,
    /// Try once; a full channel drops the chunk and reports backpressure.
    NonBlocking,
}

/// Why a flush failed.
#[derive(Clone, Copy, Debug, PartialEq, Eq, Structural)]
pub enum SinkError {
    /// The channel was full under the non-blocking policy. Recoverable:
    /// only this chunk was dropped, and the session goes on.
    Backpressure,
    /// The receiving half is gone. Fatal to the owning session.
    TransportClosed,
}

/// Outcome of one handoff attempt to the outbound channel.
enum SendOutcome {
    Delivered,
    Full,
    Closed,
}

#[verifier::external_type_specification]
#[verifier::external_body]
#[verifier::reject_recursive_types(T)]
pub struct ExSender<T>(tokio::sync::mpsc::Sender<T>);

/// The adapter itself: an internal buffer in front of one bounded outbound
/// channel, with a ghost log of the chunks the channel accepted.
pub struct ByteSink {
    pub buffer: Vec<u8>,
    pub policy: FlushPolicy,
    pub outbound: tokio::sync::mpsc::Sender<Vec<u8>>,
    pub sent: Ghost<Seq<Seq<u8>>>,
}

impl ByteSink {
    /// An adapter with an empty buffer over the given channel; nothing has
    /// been sent through it yet.
    pub fn new(outbound: tokio::sync::mpsc::Sender<Vec<u8>>, policy: FlushPolicy) -> (r: ByteSink)
        ensures
            r.buffer@ == Seq::<u8>::empty(),
            r.policy == policy,
            r.sent@ == Seq::<Seq<u8>>::empty(),
    {
        ByteSink { buffer: Vec::new(), policy, outbound, sent: Ghost(Seq::empty()) }
    }

    /// Relies on tokio's `Sender::try_send`: one non-blocking attempt,
    /// which delivers the message — recorded in the ghost log — or returns
    /// it undelivered with the channel full or closed. Which outcome comes
    /// back depends on the channel's runtime state, so nothing more is
    /// promised of it.
    #[verifier::external_body]
    fn try_send_chunk(&mut self, chunk: Vec<u8>) -> (r: SendOutcome)
        ensures
            final(self).buffer@ == old(self).buffer@,
            final(self).policy == old(self).policy,
            r == SendOutcome::Delivered ==> final(self).sent@ == old(self).sent@.push(chunk@),
            r != SendOutcome::Delivered ==> final(self).sent@ == old(self).sent@,
    {
        match self.outbound.try_send(chunk) {
            Ok(()) => SendOutcome::Delivered,
            Err(tokio::sync::mpsc::error::TrySendError::Full(_)) => SendOutcome::Full,
            Err(tokio::sync::mpsc::error::TrySendError::Closed(_)) => SendOutcome::Closed,
        }
    }

    /// Relies on tokio's `Sender::blocking_send`: waits for capacity and
    /// delivers — recorded in the ghost log — or returns with the channel
    /// closed and nothing delivered. `blocking_send` panics when called
    /// from inside an asynchronous execution context: the blocking policy
    /// is for the dedicated render thread of a connection, never for a
    /// task.
    #[verifier::external_body]
    fn blocking_send_chunk(&mut self, chunk: Vec<u8>) -> (delivered: bool)
        ensures
            final(self).buffer@ == old(self).buffer@,
            final(self).policy == old(self).policy,
            delivered ==> final(self).sent@ == old(self).sent@.push(chunk@),
            !delivered ==> final(self).sent@ == old(self).sent@,
    {
        self.outbound.blocking_send(chunk).is_ok()
    }

    /// Append bytes to the internal buffer. Never fails and never blocks:
    /// no backpressure is observed at write time.
    pub fn write(&mut self, bytes: &[u8])
        ensures
            final(self).buffer@ == old(self).buffer@ + bytes@,
            final(self).policy == old(self).policy,
            final(self).sent@ == old(self).sent@,
    {
        self.buffer.extend_from_slice(bytes);
        proof {
            assert(self.buffer@ =~= old(self).buffer@ + bytes@);
        }
    }

    /// Take the buffer whole and hand it to the outbound channel under this
    /// sink's policy. On success the channel accepted exactly one chunk:
    /// all bytes written since the last flush, in write order; on failure
    /// it accepted nothing. The buffer is empty afterwards in every case:
    /// under the non-blocking policy a chunk refused for want of capacity
    /// is dropped, not requeued. A blocking flush never reports
    /// backpressure.
    pub fn flush(&mut self) -> (r: Result<(), SinkError>)
        ensures
            final(self).buffer@ == Seq::<u8>::empty(),
            final(self).policy == old(self).policy,
            old(self).policy == FlushPolicy::Blocking ==> r != Err::<(), SinkError>(
                SinkError::Backpressure,
            ),
            r is Ok ==> final(self).sent@ == old(self).sent@.push(old(self).buffer@),
            r is Err ==> final(self).sent@ == old(self).sent@,
    {
        let mut chunk: Vec<u8> = Vec::new();
        core::mem::swap(&mut chunk, &mut self.buffer);
        match self.policy {
            FlushPolicy::Blocking => {
                if self.blocking_send_chunk(chunk) {
                    Ok(())
                } else {
                    Err(SinkError::TransportClosed)
                }
            },
            FlushPolicy::NonBlocking => {
                let outcome = self.try_send_chunk(chunk);
                flush_result(outcome)
            },
        }
    }
}

/// The flush result of one handoff outcome: delivery is success, a full
/// channel is backpressure, a closed one is the transport gone.
fn flush_result(outcome: SendOutcome) -> (r: Result<(), SinkError>)
    ensures
        r == (match outcome {
            SendOutcome::Delivered => Ok::<(), SinkError>(()),
            SendOutcome::Full => Err::<(), SinkError>(SinkError::Backpressure),
            SendOutcome::Closed => Err::<(), SinkError>(SinkError::TransportClosed),
        }),
{
    match outcome {
        SendOutcome::Delivered => Ok(()),
        SendOutcome::Full => Err(SinkError::Backpressure),
        SendOutcome::Closed => Err(SinkError::TransportClosed),
    }
}

} // verus!
