//! The session driver: one connection's lifecycle as a state machine.
//!
//! The loop that owns a connection — awaiting a frame, feeding it here,
//! performing the resulting teardown — lives with the transport. What the
//! driver decides is pure: [`drive_input_value`] maps one inbound frame, or
//! the closing of the inbound transport, to the session's next state and to
//! whether it terminates, and why. The executable [`handle_input`] is proved
//! to implement it exactly, except that a transport that closes under an
//! outbound flush surfaces as its own termination, decided by the channel
//! and not by this model.
//!
//! Termination is absorbing: a terminated session is stepped no further,
//! and its owner releases its resources exactly once.

use vstd::prelude::*;

use crate::decoder::{resize_event_of, scan, Scanned, SENTINEL};
use crate::events::{events_value, EventValue};
use crate::session::{session_step_value, Session, SessionValue};

verus! {

/// One unit of inbound traffic: a frame, or the end of the stream.
#[derive(Debug)]
pub enum DriverInput {
    Frame(Vec<u8>),
    Closed,
}

/// The mathematical value of a [`DriverInput`].
pub enum DriverInputValue {
    Frame(Seq<u8>),
    Closed,
}

impl View for DriverInput {
    type V = DriverInputValue;

    open spec fn view(&self) -> DriverInputValue {
        match self {
            DriverInput::Frame(bytes) => DriverInputValue::Frame(bytes@),
            DriverInput::Closed => DriverInputValue::Closed,
        }
    }
}

/// Why a session ended.
#[derive(Clone, Copy, Debug, PartialEq, Eq, Structural)]
pub enum TerminationReason {
    /// The application asked to quit.
    Quit,
    /// The inbound transport closed: graceful, not an error.
    EndOfStream,
    /// The inbound stream was malformed: fatal to this session only.
    DecodeFailed,
    /// The outbound transport is gone.
    TransportClosed,
}

/// What one driver step decided.
#[derive(Clone, Copy, Debug, PartialEq, Eq, Structural)]
pub enum DriverStep {
    Continue,
    Terminated(TerminationReason),
}

/// Events of one frame applied in order: each steps the session (a resize
/// through the geometry path, so it is applied before any later redraw),
/// and the first step that raises the quit flag terminates the session,
/// dropping the events behind it.
pub open spec fn drive_events(s: SessionValue, evs: Seq<EventValue>) -> (SessionValue, DriverStep)
    decreases evs.len(),
{
    if evs.len() == 0 {
        (s, DriverStep::Continue)
    } else {
        let s1 = session_step_value(s, evs[0]);
        if s1.app.should_quit {
            (
                SessionValue { terminated: true, ..s1 },
                DriverStep::Terminated(TerminationReason::Quit),
            )
        } else {
            drive_events(s1, evs.skip(1))
        }
    }
}

/// What one frame decodes to against a session's stream state: one resize
/// for a sentinel frame in framed mode, the completed events of the raw
/// stream otherwise, or nothing for a malformed stream.
pub open spec fn decoded_events(s: SessionValue, bytes: Seq<u8>) -> Option<Seq<EventValue>> {
    if s.framed && bytes.len() > 0 && bytes[0] == SENTINEL {
        Some(seq![resize_event_of(bytes)])
    } else {
        match scan(s.pending + bytes) {
            Scanned::Done(evs, _) => Some(evs),
            Scanned::Malformed => None,
        }
    }
}

/// The driver's whole decision for one unit of input. A closed inbound
/// stream terminates gracefully. A sentinel frame in framed mode is one
/// resize. Any other frame extends the raw stream: its completed events are
/// applied in order; a malformed stream terminates the session.
pub open spec fn drive_input_value(s: SessionValue, input: DriverInputValue) -> (
    SessionValue,
    DriverStep,
) {
    match input {
        DriverInputValue::Closed => (
            SessionValue { terminated: true, ..s },
            DriverStep::Terminated(TerminationReason::EndOfStream),
        ),
        DriverInputValue::Frame(bytes) => {
            if s.framed && bytes.len() > 0 && bytes[0] == SENTINEL {
                drive_events(s, seq![resize_event_of(bytes)])
            } else {
                match scan(s.pending + bytes) {
                    Scanned::Done(evs, p) => drive_events(SessionValue { pending: p, ..s }, evs),
                    Scanned::Malformed => (
                        SessionValue { pending: Seq::empty(), terminated: true, ..s },
                        DriverStep::Terminated(TerminationReason::DecodeFailed),
                    ),
                }
            }
        },
    }
}

proof fn lemma_log_prefix_refl(a: Seq<Seq<u8>>)
    ensures
        a.is_prefix_of(a),
{
    assert(a =~= a.subrange(0, a.len() as int));
}

proof fn lemma_log_prefix_push(a: Seq<Seq<u8>>, b: Seq<Seq<u8>>, x: Seq<u8>)
    requires
        a.is_prefix_of(b),
    ensures
        a.is_prefix_of(b.push(x)),
{
    assert(b.push(x).subrange(0, a.len() as int) =~= b.subrange(0, a.len() as int));
}

proof fn lemma_drive_events_keeps_terminated(s: SessionValue, evs: Seq<EventValue>)
    requires
        s.terminated,
    ensures
        drive_events(s, evs).0.terminated,
    decreases evs.len(),
{
    if evs.len() > 0 {
        let s1 = session_step_value(s, evs[0]);
        if !s1.app.should_quit {
            lemma_drive_events_keeps_terminated(s1, evs.skip(1));
        }
    }
}

/// A quit raised by the first event of a batch terminates the session with
/// the quit reason, whatever events follow it in the frame — they are
/// dropped, and the application state is exactly the one the quitting step
/// produced. Together with `Registry::dispatch`'s contract, which removes
/// the entry of every terminated session, this is the whole quit path: one
/// quitting event, termination with [`TerminationReason::Quit`], entry
/// gone.
pub proof fn lemma_quit_event_terminates(s: SessionValue, evs: Seq<EventValue>)
    requires
        evs.len() > 0,
        session_step_value(s, evs[0]).app.should_quit,
    ensures
        drive_events(s, evs).1 == DriverStep::Terminated(TerminationReason::Quit),
        drive_events(s, evs).0.terminated,
        drive_events(s, evs).0.app == session_step_value(s, evs[0]).app,
{
}

/// Termination is absorbing: no inbound traffic brings a terminated
/// session back to life — every driver decision leaves the flag set.
pub proof fn lemma_termination_is_absorbing(s: SessionValue, input: DriverInputValue)
    requires
        s.terminated,
    ensures
        drive_input_value(s, input).0.terminated,
{
    match input {
        DriverInputValue::Closed => {},
        DriverInputValue::Frame(bytes) => {
            if s.framed && bytes.len() > 0 && bytes[0] == SENTINEL {
                lemma_drive_events_keeps_terminated(s, seq![resize_event_of(bytes)]);
            } else {
                match scan(s.pending + bytes) {
                    Scanned::Done(evs, p) => {
                        lemma_drive_events_keeps_terminated(SessionValue { pending: p, ..s }, evs);
                    },
                    Scanned::Malformed => {},
                }
            }
        },
    }
}

/// Feed one unit of inbound traffic to a session.
///
/// Everything but the outbound channel's behaviour is deterministic: unless
/// a flush finds the transport closed, the new state and the outcome are
/// exactly [`drive_input_value`]. A closed transport terminates the session
/// with [`TerminationReason::TransportClosed`] — and only a flush can find
/// that, so the escape is confined to frames that complete at least one
/// event: a closed inbound stream always ends with the graceful
/// end-of-stream reason, a malformed frame always with the decode failure,
/// and a frame that completes nothing never terminates this way.
pub fn handle_input(session: &mut Session, input: DriverInput) -> (r: DriverStep)
    requires
        old(session).dims_ok(),
    ensures
        final(session).dims_ok(),
        old(session).sink.sent@.is_prefix_of(final(session).sink.sent@),
        r == DriverStep::Terminated(TerminationReason::TransportClosed) ==> final(
            session).terminated,
        r != DriverStep::Terminated(TerminationReason::TransportClosed) ==> {
            &&& final(session)@ == drive_input_value(old(session)@, input@).0
            &&& r == drive_input_value(old(session)@, input@).1
        },
        (match input@ {
            DriverInputValue::Closed => r == DriverStep::Terminated(
                TerminationReason::EndOfStream,
            ),
            DriverInputValue::Frame(bytes) => {
                &&& (decoded_events(old(session)@, bytes) is None ==> r
                    == DriverStep::Terminated(TerminationReason::DecodeFailed))
                &&& (r == DriverStep::Terminated(TerminationReason::TransportClosed) ==> (
                decoded_events(old(session)@, bytes) matches Some(evs) && evs.len() > 0))
            },
        }),
{
    match &input {
        DriverInput::Closed => {
            session.terminated = true;
            proof {
                assert(session@ =~= drive_input_value(old(session)@, input@).0);
                lemma_log_prefix_refl(old(session).sink.sent@);
            }
            DriverStep::Terminated(TerminationReason::EndOfStream)
        },
        DriverInput::Frame(bytes) => {
            match session.decoder.decode(bytes.as_slice()) {
                Err(_) => {
                    session.terminated = true;
                    proof {
                        assert(session@ =~= drive_input_value(old(session)@, input@).0);
                        lemma_log_prefix_refl(old(session).sink.sent@);
                    }
                    DriverStep::Terminated(TerminationReason::DecodeFailed)
                },
                Ok(events) => {
                    let ghost start = session@;
                    let ghost all = events_value(events@);
                    let ghost goal = drive_input_value(old(session)@, input@);
                    proof {
                        assert(goal == drive_events(start, all));
                        assert(decoded_events(old(session)@, bytes@) == Some(all));
                        assert(all.len() == events@.len());
                        lemma_log_prefix_refl(old(session).sink.sent@);
                    }
                    let mut events = events;
                    loop
                        invariant
                            session.dims_ok(),
                            goal == drive_input_value(old(session)@, input@),
                            goal == drive_events(session@, events_value(events@)),
                            input@ matches DriverInputValue::Frame(b) && decoded_events(
                                old(session)@,
                                b,
                            ) == Some(all),
                            all.len() >= events@.len(),
                            old(session).sink.sent@.is_prefix_of(session.sink.sent@),
                        decreases events@.len(),
                    {
                        if events.len() == 0 {
                            proof {
                                assert(events_value(events@) =~= Seq::<EventValue>::empty());
                                assert(goal == (session@, DriverStep::Continue));
                            }
                            return DriverStep::Continue;
                        }
                        let ghost pre = events@;
                        let ev = events.remove(0);
                        let ghost evv = ev@;
                        let ghost rest = events_value(events@);
                        proof {
                            assert(events_value(pre) =~= seq![evv] + rest);
                        }
                        let ghost before = session@;
                        let ghost log_before = session.sink.sent@;
                        match session.step(ev) {
                            Err(_) => {
                                session.terminated = true;
                                proof {
                                    assert(pre.len() >= 1);
                                    assert(all.len() > 0);
                                    if session.sink.sent@ == log_before.push(
                                        crate::session::step_chunk(before, evv),
                                    ) {
                                        lemma_log_prefix_push(
                                            old(session).sink.sent@,
                                            log_before,
                                            crate::session::step_chunk(before, evv),
                                        );
                                    }
                                }
                                return DriverStep::Terminated(TerminationReason::TransportClosed);
                            },
                            Ok(quit) => {
                                proof {
                                    let evs_before = seq![evv] + rest;
                                    assert(evs_before[0] == evv);
                                    assert(evs_before.skip(1) =~= rest);
                                    assert(session@ == session_step_value(before, evv));
                                    if session.sink.sent@ == log_before.push(
                                        crate::session::step_chunk(before, evv),
                                    ) {
                                        lemma_log_prefix_push(
                                            old(session).sink.sent@,
                                            log_before,
                                            crate::session::step_chunk(before, evv),
                                        );
                                    }
                                }
                                if quit {
                                    session.terminated = true;
                                    proof {
                                        assert(goal.0 =~= session@);
                                        assert(goal.1 == DriverStep::Terminated(
                                            TerminationReason::Quit,
                                        ));
                                    }
                                    return DriverStep::Terminated(TerminationReason::Quit);
                                }
                            },
                        }
                    }
                },
            }
        },
    }
}

} // verus!
