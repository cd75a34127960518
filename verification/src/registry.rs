//! The session registry: the one piece of state shared across connections,
//! a table from connection identity to live session.
//!
//! An entry is inserted when a connection opens, reached for exactly one
//! event application or one geometry change at a time, and removed when its
//! session terminates. The table's owner serializes access through one
//! lock, held for one such operation and never across a suspension point;
//! the operations themselves are verified here and all run in place.

use std::collections::HashMap;

use vstd::prelude::*;

use crate::driver::{
    decoded_events, drive_input_value, handle_input, DriverInput, DriverInputValue, DriverStep,
    TerminationReason,
};
use crate::session::{
    initial_session, log_after_flush, redraw_chunk, redraw_value, resize_chunk,
    session_resize_value, Session,
};
use crate::sink::FlushPolicy;

verus! {

broadcast use vstd::std_specs::hash::group_hash_axioms;

/// The table of live sessions, keyed by connection identity.
pub struct Registry {
    pub sessions: HashMap<u64, Session>,
}

impl View for Registry {
    type V = Map<u64, Session>;

    open spec fn view(&self) -> Map<u64, Session> {
        self.sessions@
    }
}

impl Registry {
    /// Every registered session has a lawful geometry.
    pub open spec fn wf(&self) -> bool {
        forall|k: u64| self@.contains_key(k) ==> (#[trigger] self@[k]).dims_ok()
    }

    /// An empty registry.
    pub fn new() -> (r: Registry)
        ensures
            r@ == Map::<u64, Session>::empty(),
            r.wf(),
    {
        Registry { sessions: HashMap::new() }
    }

    /// Whether a connection identity is registered.
    pub fn contains(&self, id: u64) -> (r: bool)
        ensures
            r == self@.contains_key(id),
    {
        self.sessions.contains_key(&id)
    }

    /// How many sessions are live.
    pub fn len(&self) -> (r: usize)
        ensures
            r == self@.dom().len(),
    {
        self.sessions.len()
    }

    /// Open a session for a new connection: build it over the given
    /// outbound channel, draw its first frame — before anything is
    /// registered or any input consumed — and register it. A transport
    /// already gone at that first flush leaves the registry unchanged and
    /// reports failure. The registered session's outbound log shows the
    /// one initial frame where the channel accepted it (always, under the
    /// blocking policy).
    pub fn open_session(
        &mut self,
        id: u64,
        outbound: tokio::sync::mpsc::Sender<Vec<u8>>,
        policy: FlushPolicy,
        framed: bool,
        cols: u16,
        rows: u16,
    ) -> (r: bool)
        requires
            old(self).wf(),
        ensures
            final(self).wf(),
            r ==> {
                &&& final(self)@.contains_key(id)
                &&& final(self)@[id]@ == initial_session(id, policy, framed, cols, rows)
                &&& final(self)@.remove(id) == old(self)@.remove(id)
                &&& log_after_flush(
                    Seq::<Seq<u8>>::empty(),
                    final(self)@[id].sink.sent@,
                    redraw_chunk(initial_session(id, policy, framed, cols, rows)),
                    true,
                    policy,
                )
            },
            !r ==> final(self)@ == old(self)@,
    {
        let mut session = Session::new(id, outbound, policy, framed, cols, rows);
        match session.redraw() {
            Ok(()) => {
                proof {
                    assert(session@ =~= initial_session(id, policy, framed, cols, rows));
                }
                let _ = self.sessions.insert(id, session);
                proof {
                    assert(self@.remove(id) =~= old(self)@.remove(id));
                }
                true
            },
            Err(_) => false,
        }
    }

    /// Tear a session down. Idempotent: safe after self-termination, and a
    /// no-op for an unknown identity.
    pub fn teardown(&mut self, id: u64)
        requires
            old(self).wf(),
        ensures
            final(self).wf(),
            final(self)@ == old(self)@.remove(id),
    {
        let _ = self.sessions.remove(&id);
    }

    /// Feed one unit of inbound traffic to the session of the given
    /// identity; a session that terminates leaves the registry at once.
    ///
    /// An unknown identity is a no-op reporting nothing. Otherwise the
    /// outcome is returned, and — unless the outbound transport was found
    /// closed, which the channel alone decides — the session's new state
    /// and the outcome are exactly [`drive_input_value`]. The closed-
    /// transport escape is confined as in [`handle_input`]: a closed
    /// inbound stream always ends with the graceful end-of-stream reason, a
    /// malformed frame always with the decode failure, and only a frame
    /// that completes at least one event can end with the closed transport.
    pub fn dispatch(&mut self, id: u64, input: DriverInput) -> (r: Option<DriverStep>)
        requires
            old(self).wf(),
        ensures
            final(self).wf(),
            !old(self)@.contains_key(id) ==> r is None && final(self)@ == old(self)@,
            old(self)@.contains_key(id) ==> {
                &&& r is Some
                &&& (r->Some_0 == DriverStep::Terminated(TerminationReason::TransportClosed) || {
                    let (sv, st) = drive_input_value(old(self)@[id]@, input@);
                    &&& r->Some_0 == st
                    &&& (st is Terminated ==> final(self)@ == old(self)@.remove(id))
                    &&& (st is Continue ==> final(self)@.contains_key(id) && final(self)@[id]@ == sv
                        && final(self)@.remove(id) == old(self)@.remove(id))
                })
                &&& (r->Some_0 is Terminated ==> final(self)@ == old(self)@.remove(id))
                &&& (r->Some_0 is Continue ==> final(self)@.contains_key(id) && old(
                    self)@[id].sink.sent@.is_prefix_of(final(self)@[id].sink.sent@))
                &&& (match input@ {
                    DriverInputValue::Closed => r->Some_0 == DriverStep::Terminated(
                        TerminationReason::EndOfStream,
                    ),
                    DriverInputValue::Frame(bytes) => {
                        &&& (decoded_events(old(self)@[id]@, bytes) is None ==> r->Some_0
                            == DriverStep::Terminated(TerminationReason::DecodeFailed))
                        &&& (r->Some_0 == DriverStep::Terminated(
                            TerminationReason::TransportClosed,
                        ) ==> (decoded_events(old(self)@[id]@, bytes) matches Some(evs)
                            && evs.len() > 0))
                    },
                })
            },
    {
        let taken = self.sessions.remove(&id);
        match taken {
            None => {
                proof {
                    assert(self@ =~= old(self)@);
                }
                None
            },
            Some(mut session) => {
                let step = handle_input(&mut session, input);
                match step {
                    DriverStep::Continue => {
                        let _ = self.sessions.insert(id, session);
                        proof {
                            assert(self@.remove(id) =~= old(self)@.remove(id));
                        }
                    },
                    DriverStep::Terminated(_) => {},
                }
                Some(step)
            },
        }
    }

    /// Redraw the session of the given identity from its present state,
    /// without consuming an event: the step of a tick-driven deployment,
    /// where a shared periodic tick refreshes each live session in turn
    /// instead of tying redraws to input arrival. Best-effort: a no-op for
    /// an unknown identity.
    pub fn refresh(&mut self, id: u64) -> (r: bool)
        requires
            old(self).wf(),
        ensures
            final(self).wf(),
            r == old(self)@.contains_key(id),
            !r ==> final(self)@ == old(self)@,
            r ==> {
                &&& final(self)@.contains_key(id)
                &&& final(self)@[id]@ == redraw_value(old(self)@[id]@)
                &&& final(self)@.remove(id) == old(self)@.remove(id)
                &&& (final(self)@[id].sink.sent@ == old(self)@[id].sink.sent@ || final(
                    self)@[id].sink.sent@ == old(self)@[id].sink.sent@.push(
                    redraw_chunk(old(self)@[id]@),
                ))
            },
    {
        let taken = self.sessions.remove(&id);
        match taken {
            None => {
                proof {
                    assert(self@ =~= old(self)@);
                }
                false
            },
            Some(mut session) => {
                let _ = session.redraw();
                let _ = self.sessions.insert(id, session);
                proof {
                    assert(self@.remove(id) =~= old(self)@.remove(id));
                }
                true
            },
        }
    }

    /// Apply a geometry change to the session of the given identity:
    /// best-effort, a no-op for an unknown identity. The new geometry is
    /// drawn at once, whatever became of the flushed frame.
    pub fn resize(&mut self, id: u64, cols: u16, rows: u16) -> (r: bool)
        requires
            old(self).wf(),
        ensures
            final(self).wf(),
            r == old(self)@.contains_key(id),
            !r ==> final(self)@ == old(self)@,
            r ==> {
                &&& final(self)@.contains_key(id)
                &&& final(self)@[id]@ == session_resize_value(old(self)@[id]@, cols, rows)
                &&& final(self)@.remove(id) == old(self)@.remove(id)
                &&& (final(self)@[id].sink.sent@ == old(self)@[id].sink.sent@ || final(
                    self)@[id].sink.sent@ == old(self)@[id].sink.sent@.push(
                    resize_chunk(old(self)@[id]@, cols, rows),
                ))
            },
    {
        let taken = self.sessions.remove(&id);
        match taken {
            None => {
                proof {
                    assert(self@ =~= old(self)@);
                }
                false
            },
            Some(mut session) => {
                let _ = session.resize(cols, rows);
                let _ = self.sessions.insert(id, session);
                proof {
                    assert(self@.remove(id) =~= old(self)@.remove(id));
                }
                true
            },
        }
    }
}

} // verus!
