//! The normalized event model: every transport's input is decoded into a
//! stream of these events before it reaches a session.

use vstd::prelude::*;

verus! {

/// Modifier keys held while a key was pressed.
#[derive(Clone, Copy, Debug, PartialEq, Eq, Structural)]
pub struct Modifiers {
    pub shift: bool,
    pub alt: bool,
    pub ctrl: bool,
}

impl Modifiers {
    /// No modifier held.
    pub open spec fn none_spec() -> Modifiers {
        Modifiers { shift: false, alt: false, ctrl: false }
    }

    /// No modifier held.
    pub fn none() -> (r: Modifiers)
        ensures
            r == Modifiers::none_spec(),
    {
        Modifiers { shift: false, alt: false, ctrl: false }
    }

    /// Only the alt key held.
    pub open spec fn alt_spec() -> Modifiers {
        Modifiers { shift: false, alt: true, ctrl: false }
    }

    /// Only the control key held.
    pub open spec fn ctrl_spec() -> Modifiers {
        Modifiers { shift: false, alt: false, ctrl: true }
    }

    /// Only the shift key held.
    pub open spec fn shift_spec() -> Modifiers {
        Modifiers { shift: true, alt: false, ctrl: false }
    }
}

/// One logical key. `Char` carries a printable ASCII byte, or the plain
/// letter of a control chord (control-c arrives as `Char(0x63)` with the
/// control modifier set).
#[derive(Clone, Copy, Debug, PartialEq, Eq, Structural)]
pub enum KeyCode {
    Char(u8),
    Up,
    Down,
    Left,
    Right,
    Home,
    End,
    PageUp,
    PageDown,
    Insert,
    Delete,
    Enter,
    Tab,
    Backspace,
    Esc,
    F(u8),
}

/// One normalized input event.
///
/// A `Resize` must be applied to a session's geometry before any redraw
/// queued after it. `Unknown` stands for a well-formed input sequence that
/// names no key this model knows; it is never an error.
#[derive(Debug)]
pub enum StructuredEvent {
    Key(KeyCode, Modifiers),
    Resize(u16, u16),
    Paste(Vec<u8>),
    Unknown,
}

/// The mathematical value of a [`StructuredEvent`]: pasted bytes become a
/// sequence, everything else is already plain data.
pub enum EventValue {
    Key(KeyCode, Modifiers),
    Resize(u16, u16),
    Paste(Seq<u8>),
    Unknown,
}

impl View for StructuredEvent {
    type V = EventValue;

    open spec fn view(&self) -> EventValue {
        match self {
            StructuredEvent::Key(code, mods) => EventValue::Key(*code, *mods),
            StructuredEvent::Resize(cols, rows) => EventValue::Resize(*cols, *rows),
            StructuredEvent::Paste(bytes) => EventValue::Paste(bytes@),
            StructuredEvent::Unknown => EventValue::Unknown,
        }
    }
}

/// The values of a batch of decoded events, in order.
pub open spec fn events_value(evs: Seq<StructuredEvent>) -> Seq<EventValue> {
    evs.map_values(|e: StructuredEvent| e@)
}

} // verus!
