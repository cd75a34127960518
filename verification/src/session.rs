//! One session: a rendering surface, one instance of application state, the
//! decoder of its inbound stream, and the sink its redraws flow through.
//!
//! The surface is a character-cell grid redrawn whole: its content is a
//! function of the application state and the geometry alone, given by
//! [`render_cells`]. A redraw recomputes the grid, then writes and flushes
//! one serialized frame through the sink. The session's whole state
//! transition is deterministic; only the outcome of the flush — delivered,
//! dropped for backpressure, or transport gone — depends on the channel.

use vstd::prelude::*;

use crate::app::{initial_app, update_spec, App, AppValue, CurrentMode, CurrentScreen};
use crate::decoder::Decoder;
use crate::events::{EventValue, StructuredEvent};
use crate::sink::{ByteSink, FlushPolicy, SinkError};

verus! {

/// Largest geometry the wire framing can carry in one byte per dimension.
pub const MAX_DIM: u16 = 255;

/// Error of a session operation.
#[derive(Clone, Copy, Debug, PartialEq, Eq, Structural)]
pub enum SessionError {
    /// The outbound transport is gone. Fatal to the owning session.
    TransportClosed,
}

/// The cell grid exclusively owned by one session: written only during a
/// redraw, read only when a frame is serialized for the sink.
#[derive(Debug)]
pub struct RenderBuffer {
    pub cols: u16,
    pub rows: u16,
    pub cells: Vec<u8>,
}

/// The tag cell summarizing the mode.
pub open spec fn mode_tag(mode: CurrentMode) -> u8 {
    match mode {
        CurrentMode::Main => 0x4d,
        CurrentMode::Editing => 0x45,
        CurrentMode::Exiting => 0x58,
    }
}

/// The tag cell summarizing the screen.
pub open spec fn screen_tag(screen: CurrentScreen) -> u8 {
    match screen {
        CurrentScreen::Recipes => 0x52,
        CurrentScreen::Ingredients => 0x49,
    }
}

/// The whole grid of one redraw: the mode tag, the screen tag, then blank
/// cells, row-major over the given geometry.
pub open spec fn render_cells(mode: CurrentMode, screen: CurrentScreen, cols: u16, rows: u16) -> Seq<
    u8,
> {
    Seq::new(
        (cols * rows) as nat,
        |i: int|
            if i == 0 {
                mode_tag(mode)
            } else if i == 1 {
                screen_tag(screen)
            } else {
                0x20
            },
    )
}

/// A dimension from the wire, capped to what the framing supports.
pub open spec fn clamp_dim(d: u16) -> u16 {
    if d > MAX_DIM {
        MAX_DIM
    } else {
        d
    }
}

/// The wire form of one redraw: the geometry, then the cells.
pub open spec fn serialize_frame(cols: u16, rows: u16, cells: Seq<u8>) -> Seq<u8> {
    seq![cols as u8, rows as u8] + cells
}

/// The mathematical value of a [`Session`].
#[verifier::ext_equal]
pub struct SessionValue {
    pub id: u64,
    pub app: AppValue,
    pub cols: u16,
    pub rows: u16,
    pub cells: Seq<u8>,
    pub pending: Seq<u8>,
    pub framed: bool,
    pub policy: FlushPolicy,
    pub sink_buffer: Seq<u8>,
    pub terminated: bool,
}

/// One session, exclusively owned and stepped by its driver.
pub struct Session {
    pub id: u64,
    pub app: App,
    pub buffer: RenderBuffer,
    pub decoder: Decoder,
    pub sink: ByteSink,
    pub terminated: bool,
}

impl View for Session {
    type V = SessionValue;

    open spec fn view(&self) -> SessionValue {
        SessionValue {
            id: self.id,
            app: self.app@,
            cols: self.buffer.cols,
            rows: self.buffer.rows,
            cells: self.buffer.cells@,
            pending: self.decoder.pending@,
            framed: self.decoder.framed,
            policy: self.sink.policy,
            sink_buffer: self.sink.buffer@,
            terminated: self.terminated,
        }
    }
}

/// The state of a freshly opened session, before its first flush.
pub open spec fn initial_session(
    id: u64,
    policy: FlushPolicy,
    framed: bool,
    cols: u16,
    rows: u16,
) -> SessionValue {
    let c = clamp_dim(cols);
    let r = clamp_dim(rows);
    SessionValue {
        id,
        app: initial_app(),
        cols: c,
        rows: r,
        cells: render_cells(initial_app().current_mode, initial_app().current_screen, c, r),
        pending: Seq::empty(),
        framed,
        policy,
        sink_buffer: Seq::empty(),
        terminated: false,
    }
}

/// A redraw: the grid recomputed from the present state, one frame written
/// and flushed, the sink's buffer empty afterwards in every case.
pub open spec fn redraw_value(s: SessionValue) -> SessionValue {
    SessionValue {
        cells: render_cells(s.app.current_mode, s.app.current_screen, s.cols, s.rows),
        sink_buffer: Seq::empty(),
        ..s
    }
}

/// A geometry change: both dimensions capped, then an immediate redraw,
/// bypassing the ordinary event path.
pub open spec fn session_resize_value(s: SessionValue, cols: u16, rows: u16) -> SessionValue {
    redraw_value(SessionValue { cols: clamp_dim(cols), rows: clamp_dim(rows), ..s })
}

/// One event applied: a resize goes to the geometry path; every other
/// event steps the application and is followed by a redraw.
pub open spec fn session_step_value(s: SessionValue, ev: EventValue) -> SessionValue {
    match ev {
        EventValue::Resize(c, r) => session_resize_value(s, c, r),
        _ => redraw_value(SessionValue { app: update_spec(s.app, ev), ..s }),
    }
}

/// The chunk one redraw of state `pre` flushes: anything already buffered
/// in the sink, then the wire form of the recomputed grid.
pub open spec fn redraw_chunk(pre: SessionValue) -> Seq<u8> {
    let post = redraw_value(pre);
    pre.sink_buffer + serialize_frame(post.cols, post.rows, post.cells)
}

/// The chunk one geometry change flushes: the redraw of the resized state.
pub open spec fn resize_chunk(pre: SessionValue, cols: u16, rows: u16) -> Seq<u8> {
    redraw_chunk(SessionValue { cols: clamp_dim(cols), rows: clamp_dim(rows), ..pre })
}

/// The chunk one event step flushes: the redraw after the event took
/// effect.
pub open spec fn step_chunk(pre: SessionValue, ev: EventValue) -> Seq<u8> {
    match ev {
        EventValue::Resize(c, r) => resize_chunk(pre, c, r),
        _ => redraw_chunk(SessionValue { app: update_spec(pre.app, ev), ..pre }),
    }
}

/// How the outbound log moves across one flush of `chunk`: it loses
/// nothing and gains at most this one chunk; an error means the channel
/// accepted nothing; under the blocking policy success means it accepted
/// exactly this chunk. (Under the non-blocking policy a success may still
/// have dropped the chunk for backpressure: that loss is the policy's
/// stated trade.)
pub open spec fn log_after_flush(
    pre: Seq<Seq<u8>>,
    post: Seq<Seq<u8>>,
    chunk: Seq<u8>,
    ok: bool,
    policy: FlushPolicy,
) -> bool {
    &&& (post == pre || post == pre.push(chunk))
    &&& (!ok ==> post == pre)
    &&& (ok && policy == FlushPolicy::Blocking ==> post == pre.push(chunk))
}

impl Session {
    /// The geometry fits the wire framing.
    pub open spec fn dims_ok(&self) -> bool {
        self.buffer.cols <= MAX_DIM && self.buffer.rows <= MAX_DIM
    }

    /// The geometry and grid agree, and fit the wire framing.
    pub open spec fn wf(&self) -> bool {
        &&& self.dims_ok()
        &&& self.buffer.cells@.len() == self.buffer.cols as int * self.buffer.rows as int
    }

    /// A fresh session over the given outbound channel, its grid already
    /// rendered from the initial state; nothing is flushed yet.
    pub fn new(
        id: u64,
        outbound: tokio::sync::mpsc::Sender<Vec<u8>>,
        policy: FlushPolicy,
        framed: bool,
        cols: u16,
        rows: u16,
    ) -> (r: Session)
        ensures
            r.wf(),
            r@ == initial_session(id, policy, framed, cols, rows),
            r.sink.sent@ == Seq::<Seq<u8>>::empty(),
    {
        let app = App::new();
        let c = clamp(cols);
        let rws = clamp(rows);
        let cells = render(&app, c, rws);
        let r = Session {
            id,
            app,
            buffer: RenderBuffer { cols: c, rows: rws, cells },
            decoder: Decoder::new(framed),
            sink: ByteSink::new(outbound, policy),
            terminated: false,
        };
        proof {
            assert(r@ =~= initial_session(id, policy, framed, cols, rows));
        }
        r
    }

    /// Redraw the grid from the present state and flush one frame. The new
    /// state is the same whatever the outcome of the flush, and the session
    /// outcome is [`continue_after_flush`] of it: a chunk refused for
    /// backpressure is dropped and the session goes on; only a closed
    /// transport is reported as an error. The channel accepted at most the
    /// one redrawn frame — exactly it, under the blocking policy, when the
    /// redraw succeeds.
    pub fn redraw(&mut self) -> (r: Result<(), SessionError>)
        requires
            old(self).dims_ok(),
        ensures
            final(self).wf(),
            final(self)@ == redraw_value(old(self)@),
            r is Err ==> r == Err::<(), SessionError>(SessionError::TransportClosed),
            log_after_flush(
                old(self).sink.sent@,
                final(self).sink.sent@,
                redraw_chunk(old(self)@),
                r is Ok,
                old(self)@.policy,
            ),
    {
        let cells = render(&self.app, self.buffer.cols, self.buffer.rows);
        self.buffer.cells = cells;
        let frame = serialize(self.buffer.cols, self.buffer.rows, &self.buffer.cells);
        self.sink.write(frame.as_slice());
        proof {
            assert(self.sink.buffer@ =~= redraw_chunk(old(self)@));
        }
        let flushed = self.sink.flush();
        proof {
            assert(self@ =~= redraw_value(old(self)@));
        }
        continue_after_flush(flushed)
    }

    /// Apply a geometry change and make it visible at once, without waiting
    /// for further input.
    pub fn resize(&mut self, cols: u16, rows: u16) -> (r: Result<(), SessionError>)
        requires
            old(self).dims_ok(),
        ensures
            final(self).wf(),
            final(self)@ == session_resize_value(old(self)@, cols, rows),
            r is Err ==> r == Err::<(), SessionError>(SessionError::TransportClosed),
            log_after_flush(
                old(self).sink.sent@,
                final(self).sink.sent@,
                resize_chunk(old(self)@, cols, rows),
                r is Ok,
                old(self)@.policy,
            ),
    {
        self.buffer.cols = clamp(cols);
        self.buffer.rows = clamp(rows);
        proof {
            assert(self@ =~= (SessionValue {
                cols: clamp_dim(cols),
                rows: clamp_dim(rows),
                ..old(self)@
            }));
        }
        self.redraw()
    }

    /// Apply one event: a resize through the geometry path, anything else
    /// through the application's transition, followed by a redraw. Reports
    /// whether the session should terminate.
    pub fn step(&mut self, event: StructuredEvent) -> (r: Result<bool, SessionError>)
        requires
            old(self).dims_ok(),
        ensures
            final(self).wf(),
            final(self)@ == session_step_value(old(self)@, event@),
            r is Ok ==> r->Ok_0 == final(self)@.app.should_quit,
            r is Err ==> r == Err::<bool, SessionError>(SessionError::TransportClosed),
            log_after_flush(
                old(self).sink.sent@,
                final(self).sink.sent@,
                step_chunk(old(self)@, event@),
                r is Ok,
                old(self)@.policy,
            ),
    {
        match event {
            StructuredEvent::Resize(c, r) => {
                match self.resize(c, r) {
                    Ok(()) => Ok(self.app.should_quit),
                    Err(e) => Err(e),
                }
            },
            _ => {
                crate::app::update(&mut self.app, event);
                proof {
                    assert(self@ =~= (SessionValue { app: update_spec(old(self)@.app, event@), ..old(self)@ }));
                }
                match self.redraw() {
                    Ok(()) => Ok(self.app.should_quit),
                    Err(e) => Err(e),
                }
            },
        }
    }
}

/// The continuation decision on one flush outcome. Delivery and
/// backpressure both let the session continue — a refused chunk costs only
/// this redraw's output, never the session — and only a closed transport is
/// fatal.
pub fn continue_after_flush(flushed: Result<(), SinkError>) -> (r: Result<(), SessionError>)
    ensures
        r == (match flushed {
            Ok(()) => Ok::<(), SessionError>(()),
            Err(SinkError::Backpressure) => Ok::<(), SessionError>(()),
            Err(SinkError::TransportClosed) => Err::<(), SessionError>(
                SessionError::TransportClosed,
            ),
        }),
{
    match flushed {
        Ok(()) => Ok(()),
        Err(SinkError::Backpressure) => Ok(()),
        Err(SinkError::TransportClosed) => Err(SessionError::TransportClosed),
    }
}

/// A dimension from the wire, capped to what the framing supports.
fn clamp(d: u16) -> (r: u16)
    ensures
        r == clamp_dim(d),
        r <= MAX_DIM,
{
    if d > MAX_DIM {
        MAX_DIM
    } else {
        d
    }
}

/// The grid of one redraw over the given geometry.
fn render(app: &App, cols: u16, rows: u16) -> (r: Vec<u8>)
    requires
        cols <= MAX_DIM,
        rows <= MAX_DIM,
    ensures
        r@ == render_cells(app.current_mode, app.current_screen, cols, rows),
        r@.len() == cols as int * rows as int,
{
    let mt: u8 = match app.current_mode {
        CurrentMode::Main => 0x4d,
        CurrentMode::Editing => 0x45,
        CurrentMode::Exiting => 0x58,
    };
    let st: u8 = match app.current_screen {
        CurrentScreen::Recipes => 0x52,
        CurrentScreen::Ingredients => 0x49,
    };
    proof {
        assert((cols as int) * (rows as int) <= 65025) by (nonlinear_arith)
            requires
                cols <= 255,
                rows <= 255,
        ;
    }
    let n: usize = (cols as usize) * (rows as usize);
    let ghost target = render_cells(app.current_mode, app.current_screen, cols, rows);
    let mut cells: Vec<u8> = Vec::new();
    let mut i: usize = 0;
    while i < n
        invariant
            i <= n,
            n == cols as int * rows as int,
            target == render_cells(app.current_mode, app.current_screen, cols, rows),
            mt == mode_tag(app.current_mode),
            st == screen_tag(app.current_screen),
            cells@.len() == i,
            forall|j: int| 0 <= j < i ==> cells@[j] == target[j],
        decreases n - i,
    {
        let cell: u8 = if i == 0 {
            mt
        } else if i == 1 {
            st
        } else {
            0x20
        };
        cells.push(cell);
        i = i + 1;
    }
    proof {
        assert(cells@ =~= target);
    }
    cells
}

/// The wire form of one redraw.
fn serialize(cols: u16, rows: u16, cells: &Vec<u8>) -> (r: Vec<u8>)
    requires
        cols <= MAX_DIM,
        rows <= MAX_DIM,
    ensures
        r@ == serialize_frame(cols, rows, cells@),
{
    let mut r: Vec<u8> = Vec::new();
    r.push(cols as u8);
    r.push(rows as u8);
    r.extend_from_slice(cells.as_slice());
    proof {
        assert(r@ =~= serialize_frame(cols, rows, cells@));
    }
    r
}

// ---------------------------------------------------------------------------
// Laws.
// ---------------------------------------------------------------------------

/// Resizing twice to the same geometry produces two redraws with identical
/// grid content: the redraw is a function of the application state and the
/// geometry alone, and the geometry path leaves the application unchanged.
pub proof fn lemma_resize_repeat(s: SessionValue, cols: u16, rows: u16)
    ensures
        ({
            let once = session_resize_value(s, cols, rows);
            let twice = session_resize_value(once, cols, rows);
            &&& twice.cells == once.cells
            &&& twice.cols == once.cols
            &&& twice.rows == once.rows
            &&& twice.app == once.app
        }),
{
}

} // verus!
