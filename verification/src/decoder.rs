//! The input event decoder.
//!
//! Two wire encodings coexist, selectable per transport:
//!
//! 1. A raw terminal escape-sequence stream. One keystroke may arrive split
//!    across frames, so the decoder keeps the unconsumed tail of the stream
//!    between calls. Complete sequences yield `Key` events; well-formed
//!    sequences this model does not recognize yield `Unknown`, never an
//!    error; only a genuinely malformed stream fails the decode.
//! 2. A framed control protocol: a frame whose first byte is the reserved
//!    sentinel carries an out-of-band resize as two single-byte dimensions,
//!    and is consumed entirely as one `Resize` event. The sentinel byte is
//!    never produced by encoding 1, where it is treated as malformed.
//!
//! The grammar of encoding 1 is specified by [`scan_step`]: what token, if
//! any, stands complete at the head of the stream; [`scan`] folds it over a
//! whole stream. The executable [`Decoder`] is proved to agree with `scan`.

use vstd::prelude::*;

use crate::events::{events_value, EventValue, KeyCode, Modifiers, StructuredEvent};

verus! {

/// The reserved byte that opens an out-of-band resize frame.
pub const SENTINEL: u8 = 0x04;

/// Error of a decode call on a malformed raw stream. Fatal to the owning
/// session: the decoder's partial state cannot be trusted to resynchronize.
#[derive(Clone, Copy, Debug, PartialEq, Eq, Structural)]
pub struct DecodeError;

// ---------------------------------------------------------------------------
// Byte classes of the escape-sequence grammar.
// ---------------------------------------------------------------------------

/// Parameter or intermediate byte of a control sequence.
pub open spec fn is_csi_body(b: u8) -> bool {
    0x20 <= b <= 0x3f
}

/// Byte that terminates a control sequence.
pub open spec fn is_csi_final(b: u8) -> bool {
    0x40 <= b <= 0x7e
}

/// Printable ASCII.
pub open spec fn is_printable(b: u8) -> bool {
    0x20 <= b <= 0x7e
}

/// UTF-8 continuation byte.
pub open spec fn is_utf8_cont(b: u8) -> bool {
    0x80 <= b <= 0xbf
}

/// ASCII digit.
pub open spec fn is_digit(b: u8) -> bool {
    0x30 <= b <= 0x39
}

/// The marker that opens a bracketed paste: `ESC [ 2 0 0 ~`.
pub open spec fn paste_start() -> Seq<u8> {
    seq![0x1b, 0x5b, 0x32, 0x30, 0x30, 0x7e]
}

/// The marker that closes a bracketed paste: `ESC [ 2 0 1 ~`.
pub open spec fn paste_end() -> Seq<u8> {
    seq![0x1b, 0x5b, 0x32, 0x30, 0x31, 0x7e]
}

/// `prefix` stands at the head of `s`.
pub open spec fn starts_with(s: Seq<u8>, prefix: Seq<u8>) -> bool {
    s.len() >= prefix.len() && s.subrange(0, prefix.len() as int) == prefix
}

// ---------------------------------------------------------------------------
// Control-sequence parameters.
// ---------------------------------------------------------------------------

/// Every byte is a digit or the parameter separator `;`.
pub open spec fn params_ok(body: Seq<u8>) -> bool {
    forall|j: int| 0 <= j < body.len() ==> is_digit(#[trigger] body[j]) || body[j] == 0x3b
}

/// Index of the first `;` at or after `i`, or `body.len()` if none.
pub open spec fn first_semi(body: Seq<u8>, i: int) -> int
    decreases body.len() - i,
{
    if i < 0 || i >= body.len() {
        body.len() as int
    } else if body[i] == 0x3b {
        i
    } else {
        first_semi(body, i + 1)
    }
}

/// Numeric value of a digit string, saturating at 65535.
pub open spec fn digits_val(d: Seq<u8>) -> nat
    decreases d.len(),
{
    if d.len() == 0 {
        0
    } else {
        let v = digits_val(d.drop_last()) * 10 + (d.last() - 0x30);
        if v > 65535 {
            65535 as nat
        } else {
            v as nat
        }
    }
}

/// Value of a parameter field, or `dflt` where the field is empty.
pub open spec fn field_val(d: Seq<u8>, dflt: nat) -> nat {
    if d.len() == 0 {
        dflt
    } else {
        digits_val(d)
    }
}

/// First parameter field of a control-sequence body.
pub open spec fn field1(body: Seq<u8>) -> Seq<u8> {
    body.subrange(0, first_semi(body, 0))
}

/// Second parameter field of a control-sequence body (empty if absent).
pub open spec fn field2(body: Seq<u8>) -> Seq<u8> {
    let s1 = first_semi(body, 0);
    if s1 >= body.len() {
        Seq::empty()
    } else {
        body.subrange(s1 + 1, first_semi(body, s1 + 1))
    }
}

/// Decode of the `xterm` modifier parameter: the bits of `m - 1` name
/// shift, alt and control; `0` and `1` both mean no modifier.
pub open spec fn mods_of(m: nat) -> Modifiers {
    if m == 0 {
        Modifiers::none_spec()
    } else {
        Modifiers {
            shift: ((m - 1) as int % 2) == 1,
            alt: (((m - 1) as int / 2) % 2) == 1,
            ctrl: (((m - 1) as int / 4) % 2) == 1,
        }
    }
}

/// The key named by a `~`-terminated control sequence's first parameter.
pub open spec fn tilde_event(p1: nat, mods: Modifiers) -> EventValue {
    if p1 == 1 {
        EventValue::Key(KeyCode::Home, mods)
    } else if p1 == 2 {
        EventValue::Key(KeyCode::Insert, mods)
    } else if p1 == 3 {
        EventValue::Key(KeyCode::Delete, mods)
    } else if p1 == 4 {
        EventValue::Key(KeyCode::End, mods)
    } else if p1 == 5 {
        EventValue::Key(KeyCode::PageUp, mods)
    } else if p1 == 6 {
        EventValue::Key(KeyCode::PageDown, mods)
    } else {
        EventValue::Unknown
    }
}

/// The event named by a complete control sequence: `body` between `ESC [`
/// and the final byte `fin`.
pub open spec fn csi_event(body: Seq<u8>, fin: u8) -> EventValue {
    if !params_ok(body) {
        EventValue::Unknown
    } else {
        let mods = mods_of(field_val(field2(body), 1));
        if fin == 0x41 {
            EventValue::Key(KeyCode::Up, mods)
        } else if fin == 0x42 {
            EventValue::Key(KeyCode::Down, mods)
        } else if fin == 0x43 {
            EventValue::Key(KeyCode::Right, mods)
        } else if fin == 0x44 {
            EventValue::Key(KeyCode::Left, mods)
        } else if fin == 0x48 {
            EventValue::Key(KeyCode::Home, mods)
        } else if fin == 0x46 {
            EventValue::Key(KeyCode::End, mods)
        } else if fin == 0x7e {
            tilde_event(field_val(field1(body), 1), mods)
        } else if fin == 0x5a {
            EventValue::Key(KeyCode::Tab, Modifiers::shift_spec())
        } else {
            EventValue::Unknown
        }
    }
}

/// The event named by a complete `ESC O` sequence with final byte `b`.
pub open spec fn ss3_event(b: u8) -> EventValue {
    let none = Modifiers::none_spec();
    if b == 0x41 {
        EventValue::Key(KeyCode::Up, none)
    } else if b == 0x42 {
        EventValue::Key(KeyCode::Down, none)
    } else if b == 0x43 {
        EventValue::Key(KeyCode::Right, none)
    } else if b == 0x44 {
        EventValue::Key(KeyCode::Left, none)
    } else if b == 0x48 {
        EventValue::Key(KeyCode::Home, none)
    } else if b == 0x46 {
        EventValue::Key(KeyCode::End, none)
    } else if b == 0x50 {
        EventValue::Key(KeyCode::F(1), none)
    } else if b == 0x51 {
        EventValue::Key(KeyCode::F(2), none)
    } else if b == 0x52 {
        EventValue::Key(KeyCode::F(3), none)
    } else if b == 0x53 {
        EventValue::Key(KeyCode::F(4), none)
    } else {
        EventValue::Unknown
    }
}

// ---------------------------------------------------------------------------
// The head token of a raw stream.
// ---------------------------------------------------------------------------

/// What scanning the head of a raw stream decides.
pub enum ScanStep {
    /// The stream is a proper prefix of some token: more bytes are needed.
    Need,
    /// No token can begin here: the stream is malformed.
    Bad,
    /// A complete token of the given length stands at the head, and names
    /// the given event.
    Tok(EventValue, int),
}

/// Position of the first bracketed-paste end marker at or after `i`, if any.
pub open spec fn find_paste_end(s: Seq<u8>, i: int) -> Option<int>
    decreases s.len() - i,
{
    if i < 0 || i + 6 > s.len() {
        None
    } else if s.subrange(i, i + 6) == paste_end() {
        Some(i)
    } else {
        find_paste_end(s, i + 1)
    }
}

/// Scan of a control sequence's body from index `j` (the bytes before `j`
/// are body bytes): walk body bytes to the final byte.
pub open spec fn csi_scan_from(s: Seq<u8>, j: int) -> ScanStep
    decreases s.len() - j,
{
    if j < 2 || j >= s.len() {
        ScanStep::Need
    } else if is_csi_body(s[j]) {
        csi_scan_from(s, j + 1)
    } else if is_csi_final(s[j]) {
        ScanStep::Tok(csi_event(s.subrange(2, j), s[j]), j + 1)
    } else {
        ScanStep::Bad
    }
}

/// Scan of a stream beginning `ESC [`: a bracketed paste if the paste-start
/// marker stands whole at the head, otherwise an ordinary control sequence.
pub open spec fn scan_csi(s: Seq<u8>) -> ScanStep {
    if starts_with(s, paste_start()) {
        match find_paste_end(s, 6) {
            Some(i) => ScanStep::Tok(EventValue::Paste(s.subrange(6, i)), i + 6),
            None => ScanStep::Need,
        }
    } else {
        csi_scan_from(s, 2)
    }
}

/// Scan of a stream beginning with `ESC`.
pub open spec fn scan_esc(s: Seq<u8>) -> ScanStep {
    if s.len() == 1 {
        ScanStep::Need
    } else {
        let b1 = s[1];
        if b1 == 0x5b {
            scan_csi(s)
        } else if b1 == 0x4f {
            if s.len() == 2 {
                ScanStep::Need
            } else if is_csi_final(s[2]) {
                ScanStep::Tok(ss3_event(s[2]), 3)
            } else {
                ScanStep::Bad
            }
        } else if b1 == 0x1b {
            ScanStep::Tok(EventValue::Key(KeyCode::Esc, Modifiers::none_spec()), 1)
        } else if is_printable(b1) {
            ScanStep::Tok(EventValue::Key(KeyCode::Char(b1), Modifiers::alt_spec()), 2)
        } else {
            ScanStep::Bad
        }
    }
}

/// Scan of a multi-byte UTF-8 encoding of total length `n`: structurally
/// well-formed text this model maps to no key, so it yields `Unknown`.
pub open spec fn scan_utf8_tail(s: Seq<u8>, n: int) -> ScanStep {
    if s.len() < n {
        if forall|j: int| 1 <= j < s.len() ==> is_utf8_cont(#[trigger] s[j]) {
            ScanStep::Need
        } else {
            ScanStep::Bad
        }
    } else {
        if forall|j: int| 1 <= j < n ==> is_utf8_cont(#[trigger] s[j]) {
            ScanStep::Tok(EventValue::Unknown, n)
        } else {
            ScanStep::Bad
        }
    }
}

/// The head token of a nonempty raw stream.
///
/// Single bytes: printable ASCII is a plain key; carriage return, line
/// feed, tab, backspace and delete name their keys; the remaining C0
/// control bytes are control chords over the letter they index, except the
/// reserved sentinel, which encoding 1 never carries and which is therefore
/// malformed here. `ESC` opens a control sequence, an `ESC O` sequence, an
/// alt chord over a printable byte, or — before a second `ESC` — a lone
/// escape key. Multi-byte UTF-8 is validated structurally and yields
/// `Unknown`.
pub open spec fn scan_step(s: Seq<u8>) -> ScanStep
    recommends
        s.len() > 0,
{
    let b0 = s[0];
    let none = Modifiers::none_spec();
    if b0 == SENTINEL {
        ScanStep::Bad
    } else if b0 == 0x1b {
        scan_esc(s)
    } else if b0 == 0x0d || b0 == 0x0a {
        ScanStep::Tok(EventValue::Key(KeyCode::Enter, none), 1)
    } else if b0 == 0x09 {
        ScanStep::Tok(EventValue::Key(KeyCode::Tab, none), 1)
    } else if b0 == 0x08 || b0 == 0x7f {
        ScanStep::Tok(EventValue::Key(KeyCode::Backspace, none), 1)
    } else if is_printable(b0) {
        ScanStep::Tok(EventValue::Key(KeyCode::Char(b0), none), 1)
    } else if 0x01 <= b0 <= 0x1a {
        ScanStep::Tok(EventValue::Key(KeyCode::Char((b0 + 0x60) as u8), Modifiers::ctrl_spec()), 1)
    } else if b0 == 0x00 || (0x1c <= b0 <= 0x1f) {
        ScanStep::Tok(EventValue::Unknown, 1)
    } else if 0xc2 <= b0 <= 0xdf {
        scan_utf8_tail(s, 2)
    } else if 0xe0 <= b0 <= 0xef {
        scan_utf8_tail(s, 3)
    } else if 0xf0 <= b0 <= 0xf4 {
        scan_utf8_tail(s, 4)
    } else {
        ScanStep::Bad
    }
}

// ---------------------------------------------------------------------------
// The whole stream.
// ---------------------------------------------------------------------------

/// Result of decoding a whole raw stream: the events of its complete
/// tokens and the unconsumed incomplete tail, or a malformed stream.
pub enum Scanned {
    Done(Seq<EventValue>, Seq<u8>),
    Malformed,
}

/// Decode of a whole raw stream: tokens are taken greedily from the head;
/// an incomplete tail is kept, a malformed head fails the stream.
pub open spec fn scan(s: Seq<u8>) -> Scanned
    decreases s.len(),
{
    if s.len() == 0 {
        Scanned::Done(Seq::empty(), Seq::empty())
    } else {
        match scan_step(s) {
            ScanStep::Need => Scanned::Done(Seq::empty(), s),
            ScanStep::Bad => Scanned::Malformed,
            ScanStep::Tok(ev, n) => {
                // a complete token never outruns the stream; the bound only
                // keeps the recursion well-founded
                if 1 <= n <= s.len() {
                    match scan(s.subrange(n, s.len() as int)) {
                        Scanned::Done(evs, p) => Scanned::Done(seq![ev] + evs, p),
                        Scanned::Malformed => Scanned::Malformed,
                    }
                } else {
                    Scanned::Malformed
                }
            },
        }
    }
}

/// The resize event carried by a sentinel frame: the two bytes after the
/// sentinel are columns and rows; a missing dimension reads as zero, and
/// bytes beyond the two dimensions are ignored.
pub open spec fn resize_event_of(frame: Seq<u8>) -> EventValue {
    EventValue::Resize(
        if frame.len() >= 2 {
            frame[1] as u16
        } else {
            0
        },
        if frame.len() >= 3 {
            frame[2] as u16
        } else {
            0
        },
    )
}

// ---------------------------------------------------------------------------
// Facts about parameter fields.
// ---------------------------------------------------------------------------

/// Everything `first_semi` promises: its bound, that no separator stands
/// before it, and that it lands on a separator when it lands inside.
proof fn lemma_first_semi(body: Seq<u8>, i: int)
    requires
        0 <= i <= body.len(),
    ensures
        i <= first_semi(body, i) <= body.len(),
        forall|j: int| i <= j < first_semi(body, i) ==> body[j] != 0x3b,
        first_semi(body, i) < body.len() ==> body[first_semi(body, i)] == 0x3b,
    decreases body.len() - i,
{
    if i < body.len() && body[i] != 0x3b {
        lemma_first_semi(body, i + 1);
    }
}

// ---------------------------------------------------------------------------
// The executable decoder.
// ---------------------------------------------------------------------------

/// What one executable scan of the head found; mirrors [`ScanStep`].
enum StepRes {
    More,
    Fail,
    Token(StructuredEvent, usize),
}

/// The modifiers named by an `xterm` modifier parameter value.
fn mods_of_exec(m: u32) -> (r: Modifiers)
    ensures
        r == mods_of(m as nat),
{
    if m == 0 {
        Modifiers::none()
    } else {
        let b = m - 1;
        Modifiers { shift: b % 2 == 1, alt: (b / 2) % 2 == 1, ctrl: (b / 4) % 2 == 1 }
    }
}

/// Saturating numeric value of the digit bytes `buf[start..end]`.
fn parse_field(buf: &Vec<u8>, start: usize, end: usize) -> (v: u32)
    requires
        start <= end <= buf@.len(),
        forall|j: int| start <= j < end ==> is_digit(#[trigger] buf@[j]),
    ensures
        v as nat == digits_val(buf@.subrange(start as int, end as int)),
        v <= 65535,
{
    let mut acc: u32 = 0;
    let mut k: usize = start;
    while k < end
        invariant
            start <= k <= end <= buf@.len(),
            forall|j: int| start <= j < end ==> is_digit(#[trigger] buf@[j]),
            acc <= 65535,
            acc as nat == digits_val(buf@.subrange(start as int, k as int)),
        decreases end - k,
    {
        let d = (buf[k] - 0x30) as u32;
        let next = acc * 10 + d;
        acc = if next > 65535 {
            65535
        } else {
            next
        };
        proof {
            let pre = buf@.subrange(start as int, k as int);
            let cur = buf@.subrange(start as int, k + 1 as int);
            assert(cur.drop_last() =~= pre);
            assert(cur.last() == buf@[k as int]);
        }
        k = k + 1;
    }
    proof {
        assert(buf@.subrange(start as int, end as int) =~= buf@.subrange(
            start as int,
            k as int,
        ));
    }
    acc
}

/// Absolute index of the first `;` in `buf[from..end]`, or `end` if none;
/// positions are relative to the body starting at `start`.
fn find_semi(buf: &Vec<u8>, start: usize, from: usize, end: usize) -> (r: usize)
    requires
        start <= from <= end <= buf@.len(),
    ensures
        from <= r <= end,
        r - start == first_semi(buf@.subrange(start as int, end as int), from - start),
    decreases end - from,
{
    let ghost body = buf@.subrange(start as int, end as int);
    if from == end {
        assert(first_semi(body, from - start) == body.len());
        end
    } else if buf[from] == 0x3b {
        assert(body[from - start] == 0x3b);
        from
    } else {
        assert(body[from - start] != 0x3b);
        find_semi(buf, start, from + 1, end)
    }
}

/// The event of a complete control sequence held in `buf`: body bytes at
/// `start..end`, final byte `fin`.
fn csi_event_exec(buf: &Vec<u8>, start: usize, end: usize, fin: u8) -> (ev: StructuredEvent)
    requires
        start <= end <= buf@.len(),
    ensures
        ev@ == csi_event(buf@.subrange(start as int, end as int), fin),
{
    let ghost body = buf@.subrange(start as int, end as int);

    // Reject a body holding anything but digits and separators.
    let mut k: usize = start;
    while k < end
        invariant
            start <= k <= end <= buf@.len(),
            forall|j: int| 0 <= j < k - start ==> is_digit(#[trigger] body[j]) || body[j] == 0x3b,
            body == buf@.subrange(start as int, end as int),
        decreases end - k,
    {
        let b = buf[k];
        if !(0x30 <= b && b <= 0x39) && b != 0x3b {
            assert(!params_ok(body)) by {
                assert(body[k - start] == b);
            }
            return StructuredEvent::Unknown;
        }
        assert(body[k - start] == b);
        k = k + 1;
    }
    assert(params_ok(body));

    // Split the first two parameter fields.
    let semi1 = find_semi(buf, start, start, end);
    proof {
        lemma_first_semi(body, 0);
        assert forall|j: int| start <= j < semi1 implies is_digit(#[trigger] buf@[j]) by {
            assert(body[j - start] == buf@[j]);
            assert(body[j - start] != 0x3b);
        }
        assert(field1(body) =~= buf@.subrange(start as int, semi1 as int));
    }
    let p1 = parse_field(buf, start, semi1);
    let p1v = if semi1 == start {
        1
    } else {
        p1
    };
    assert(p1v as nat == field_val(field1(body), 1));

    let p2v: u32;
    if semi1 == end {
        assert(field2(body) =~= Seq::<u8>::empty());
        p2v = 1;
    } else {
        let semi2 = find_semi(buf, start, semi1 + 1, end);
        proof {
            lemma_first_semi(body, semi1 + 1 - start);
            assert forall|j: int| semi1 + 1 <= j < semi2 implies is_digit(#[trigger] buf@[j]) by {
                assert(body[j - start] == buf@[j]);
                assert(body[j - start] != 0x3b);
            }
            assert(field2(body) =~= buf@.subrange(semi1 + 1 as int, semi2 as int));
        }
        let p2 = parse_field(buf, semi1 + 1, semi2);
        p2v = if semi2 == semi1 + 1 {
            1
        } else {
            p2
        };
    }
    assert(p2v as nat == field_val(field2(body), 1));
    let mods = mods_of_exec(p2v);

    if fin == 0x41 {
        StructuredEvent::Key(KeyCode::Up, mods)
    } else if fin == 0x42 {
        StructuredEvent::Key(KeyCode::Down, mods)
    } else if fin == 0x43 {
        StructuredEvent::Key(KeyCode::Right, mods)
    } else if fin == 0x44 {
        StructuredEvent::Key(KeyCode::Left, mods)
    } else if fin == 0x48 {
        StructuredEvent::Key(KeyCode::Home, mods)
    } else if fin == 0x46 {
        StructuredEvent::Key(KeyCode::End, mods)
    } else if fin == 0x7e {
        if p1v == 1 {
            StructuredEvent::Key(KeyCode::Home, mods)
        } else if p1v == 2 {
            StructuredEvent::Key(KeyCode::Insert, mods)
        } else if p1v == 3 {
            StructuredEvent::Key(KeyCode::Delete, mods)
        } else if p1v == 4 {
            StructuredEvent::Key(KeyCode::End, mods)
        } else if p1v == 5 {
            StructuredEvent::Key(KeyCode::PageUp, mods)
        } else if p1v == 6 {
            StructuredEvent::Key(KeyCode::PageDown, mods)
        } else {
            StructuredEvent::Unknown
        }
    } else if fin == 0x5a {
        StructuredEvent::Key(KeyCode::Tab, Modifiers { shift: true, alt: false, ctrl: false })
    } else {
        StructuredEvent::Unknown
    }
}

/// The event of a complete `ESC O` sequence with final byte `b`.
fn ss3_event_exec(b: u8) -> (ev: StructuredEvent)
    ensures
        ev@ == ss3_event(b),
{
    let none = Modifiers::none();
    if b == 0x41 {
        StructuredEvent::Key(KeyCode::Up, none)
    } else if b == 0x42 {
        StructuredEvent::Key(KeyCode::Down, none)
    } else if b == 0x43 {
        StructuredEvent::Key(KeyCode::Right, none)
    } else if b == 0x44 {
        StructuredEvent::Key(KeyCode::Left, none)
    } else if b == 0x48 {
        StructuredEvent::Key(KeyCode::Home, none)
    } else if b == 0x46 {
        StructuredEvent::Key(KeyCode::End, none)
    } else if b == 0x50 {
        StructuredEvent::Key(KeyCode::F(1), none)
    } else if b == 0x51 {
        StructuredEvent::Key(KeyCode::F(2), none)
    } else if b == 0x52 {
        StructuredEvent::Key(KeyCode::F(3), none)
    } else if b == 0x53 {
        StructuredEvent::Key(KeyCode::F(4), none)
    } else {
        StructuredEvent::Unknown
    }
}

/// Bytes `buf[a..b]` as a fresh vector.
fn copy_range(buf: &Vec<u8>, a: usize, b: usize) -> (r: Vec<u8>)
    requires
        a <= b <= buf@.len(),
    ensures
        r@ == buf@.subrange(a as int, b as int),
{
    let mut r: Vec<u8> = Vec::new();
    let mut k: usize = a;
    while k < b
        invariant
            a <= k <= b <= buf@.len(),
            r@ =~= buf@.subrange(a as int, k as int),
        decreases b - k,
    {
        r.push(buf[k]);
        assert(r@ =~= buf@.subrange(a as int, k + 1 as int));
        k = k + 1;
    }
    proof {
        assert(r@ =~= buf@.subrange(a as int, b as int));
    }
    r
}

/// Scan of the bracketed-paste content from absolute index `k`, after the
/// whole paste-start marker at `i..i+6`.
fn step_paste(buf: &Vec<u8>, i: usize) -> (r: StepRes)
    requires
        i + 6 <= buf@.len(),
    ensures
        ({
            let sfx = buf@.skip(i as int);
            match r {
                StepRes::More => find_paste_end(sfx, 6) is None,
                StepRes::Fail => false,
                StepRes::Token(ev, n) => {
                    &&& find_paste_end(sfx, 6) == Some(n - 6 as int)
                    &&& ev@ == EventValue::Paste(sfx.subrange(6, n - 6))
                    &&& 1 <= n
                    &&& i + n <= buf@.len()
                },
            }
        }),
{
    let ghost sfx = buf@.skip(i as int);
    let len = buf.len();
    let mut k: usize = i + 6;
    loop
        invariant
            i + 6 <= len,
            i + 6 <= k <= buf@.len() + 6,
            buf@.len() == len,
            sfx == buf@.skip(i as int),
            find_paste_end(sfx, 6) == find_paste_end(sfx, k - i),
        decreases buf@.len() + 6 - k,
    {
        if k > len - 6 {
            proof {
                assert(k - i + 6 > sfx.len());
                assert(find_paste_end(sfx, k - i) is None);
            }
            return StepRes::More;
        }
        if buf[k] == 0x1b && buf[k + 1] == 0x5b && buf[k + 2] == 0x32 && buf[k + 3] == 0x30
            && buf[k + 4] == 0x31 && buf[k + 5] == 0x7e {
            proof {
                assert(sfx.subrange(k - i, k - i + 6) =~= paste_end());
                assert(find_paste_end(sfx, k - i) == Some(k - i));
            }
            let content = copy_range(buf, i + 6, k);
            proof {
                assert(buf@.subrange(i + 6, k as int) =~= sfx.subrange(6, k - i));
            }
            return StepRes::Token(StructuredEvent::Paste(content), k + 6 - i);
        }
        proof {
            assert(sfx.subrange(k - i, k - i + 6) != paste_end()) by {
                if sfx.subrange(k - i, k - i + 6) == paste_end() {
                    assert(sfx.subrange(k - i, k - i + 6)[0] == buf@[k as int]);
                    assert(sfx.subrange(k - i, k - i + 6)[1] == buf@[k + 1]);
                    assert(sfx.subrange(k - i, k - i + 6)[2] == buf@[k + 2]);
                    assert(sfx.subrange(k - i, k - i + 6)[3] == buf@[k + 3]);
                    assert(sfx.subrange(k - i, k - i + 6)[4] == buf@[k + 4]);
                    assert(sfx.subrange(k - i, k - i + 6)[5] == buf@[k + 5]);
                }
            }
        }
        k = k + 1;
    }
}

/// Scan of a stream beginning `ESC [` at absolute index `i`.
fn step_csi(buf: &Vec<u8>, i: usize) -> (r: StepRes)
    requires
        i + 2 <= buf@.len(),
        buf@[i as int] == 0x1b,
        buf@[i + 1] == 0x5b,
    ensures
        ({
            let sfx = buf@.skip(i as int);
            match r {
                StepRes::More => scan_csi(sfx) == ScanStep::Need,
                StepRes::Fail => scan_csi(sfx) == ScanStep::Bad,
                StepRes::Token(ev, n) => scan_csi(sfx) == ScanStep::Tok(ev@, n as int) && 1 <= n
                    && i + n <= buf@.len(),
            }
        }),
{
    let ghost sfx = buf@.skip(i as int);
    let len = buf.len();

    // The bracketed-paste opening marker claims the head of the stream.
    if len - i >= 6 && buf[i + 2] == 0x32 && buf[i + 3] == 0x30 && buf[i + 4] == 0x30 && buf[i
        + 5] == 0x7e {
        proof {
            assert(sfx.subrange(0, 6) =~= paste_start());
            assert(starts_with(sfx, paste_start()));
        }
        return step_paste(buf, i);
    }
    proof {
        assert(!starts_with(sfx, paste_start())) by {
            if starts_with(sfx, paste_start()) {
                assert(sfx.subrange(0, 6)[2] == buf@[i + 2]);
                assert(sfx.subrange(0, 6)[3] == buf@[i + 3]);
                assert(sfx.subrange(0, 6)[4] == buf@[i + 4]);
                assert(sfx.subrange(0, 6)[5] == buf@[i + 5]);
            }
        }
    }

    // An ordinary control sequence: body bytes, then the final byte.
    let mut j: usize = i + 2;
    loop
        invariant
            i + 2 <= j <= buf@.len(),
            buf@.len() == len,
            sfx == buf@.skip(i as int),
            !starts_with(sfx, paste_start()),
            csi_scan_from(sfx, 2) == csi_scan_from(sfx, j - i),
        decreases buf@.len() - j,
    {
        if j == len {
            assert(csi_scan_from(sfx, j - i) == ScanStep::Need);
            return StepRes::More;
        }
        let b = buf[j];
        assert(sfx[j - i] == b);
        if 0x20 <= b && b <= 0x3f {
            j = j + 1;
        } else if 0x40 <= b && b <= 0x7e {
            let ev = csi_event_exec(buf, i + 2, j, b);
            proof {
                assert(buf@.subrange(i + 2, j as int) =~= sfx.subrange(2, j - i));
            }
            return StepRes::Token(ev, j + 1 - i);
        } else {
            assert(csi_scan_from(sfx, j - i) == ScanStep::Bad);
            return StepRes::Fail;
        }
    }
}

/// Scan of a multi-byte UTF-8 encoding of total length `n` at absolute
/// index `i`.
fn step_utf8(buf: &Vec<u8>, i: usize, n: usize) -> (r: StepRes)
    requires
        i < buf@.len(),
        2 <= n <= 4,
    ensures
        ({
            let sfx = buf@.skip(i as int);
            match r {
                StepRes::More => scan_utf8_tail(sfx, n as int) == ScanStep::Need,
                StepRes::Fail => scan_utf8_tail(sfx, n as int) == ScanStep::Bad,
                StepRes::Token(ev, m) => scan_utf8_tail(sfx, n as int) == ScanStep::Tok(
                    ev@,
                    m as int,
                ) && 1 <= m && i + m <= buf@.len(),
            }
        }),
{
    let ghost sfx = buf@.skip(i as int);
    let len = buf.len();
    let have_all = n <= len - i;
    let upto = if have_all {
        i + n
    } else {
        len
    };
    let mut k: usize = i + 1;
    while k < upto
        invariant
            i + 1 <= k <= upto <= buf@.len(),
            upto == if i + n <= len {
                i + n as int
            } else {
                len as int
            },
            buf@.len() == len,
            sfx == buf@.skip(i as int),
            forall|j: int| 1 <= j < k - i ==> is_utf8_cont(#[trigger] sfx[j]),
        decreases upto - k,
    {
        let b = buf[k];
        assert(sfx[k - i] == b);
        if !(0x80 <= b && b <= 0xbf) {
            assert(!is_utf8_cont(sfx[k - i]));
            return StepRes::Fail;
        }
        k = k + 1;
    }
    if have_all {
        assert(forall|j: int| 1 <= j < n ==> is_utf8_cont(#[trigger] sfx[j]));
        StepRes::Token(StructuredEvent::Unknown, n)
    } else {
        assert(sfx.len() < n);
        assert(forall|j: int| 1 <= j < sfx.len() ==> is_utf8_cont(#[trigger] sfx[j]));
        StepRes::More
    }
}

/// Scan of a stream beginning with `ESC` at absolute index `i`.
fn step_esc(buf: &Vec<u8>, i: usize) -> (r: StepRes)
    requires
        i < buf@.len(),
        buf@[i as int] == 0x1b,
    ensures
        ({
            let sfx = buf@.skip(i as int);
            match r {
                StepRes::More => scan_esc(sfx) == ScanStep::Need,
                StepRes::Fail => scan_esc(sfx) == ScanStep::Bad,
                StepRes::Token(ev, n) => scan_esc(sfx) == ScanStep::Tok(ev@, n as int) && 1 <= n
                    && i + n <= buf@.len(),
            }
        }),
{
    let ghost sfx = buf@.skip(i as int);
    let len = buf.len();
    if i + 1 == len {
        assert(sfx.len() == 1);
        return StepRes::More;
    }
    let b1 = buf[i + 1];
    assert(sfx[1] == b1);
    if b1 == 0x5b {
        step_csi(buf, i)
    } else if b1 == 0x4f {
        if i + 2 == len {
            assert(sfx.len() == 2);
            StepRes::More
        } else {
            let b2 = buf[i + 2];
            assert(sfx[2] == b2);
            if 0x40 <= b2 && b2 <= 0x7e {
                StepRes::Token(ss3_event_exec(b2), 3)
            } else {
                StepRes::Fail
            }
        }
    } else if b1 == 0x1b {
        StepRes::Token(StructuredEvent::Key(KeyCode::Esc, Modifiers::none()), 1)
    } else if 0x20 <= b1 && b1 <= 0x7e {
        StepRes::Token(
            StructuredEvent::Key(KeyCode::Char(b1), Modifiers { shift: false, alt: true, ctrl: false }),
            2,
        )
    } else {
        StepRes::Fail
    }
}

/// Scan of the head token of the stream tail starting at absolute index `i`.
fn step_at(buf: &Vec<u8>, i: usize) -> (r: StepRes)
    requires
        i < buf@.len(),
    ensures
        ({
            let sfx = buf@.skip(i as int);
            match r {
                StepRes::More => scan_step(sfx) == ScanStep::Need,
                StepRes::Fail => scan_step(sfx) == ScanStep::Bad,
                StepRes::Token(ev, n) => scan_step(sfx) == ScanStep::Tok(ev@, n as int) && 1 <= n
                    && i + n <= buf@.len(),
            }
        }),
{
    let ghost sfx = buf@.skip(i as int);
    let b0 = buf[i];
    assert(sfx[0] == b0);
    let none = Modifiers::none();
    if b0 == SENTINEL {
        StepRes::Fail
    } else if b0 == 0x1b {
        step_esc(buf, i)
    } else if b0 == 0x0d || b0 == 0x0a {
        StepRes::Token(StructuredEvent::Key(KeyCode::Enter, none), 1)
    } else if b0 == 0x09 {
        StepRes::Token(StructuredEvent::Key(KeyCode::Tab, none), 1)
    } else if b0 == 0x08 || b0 == 0x7f {
        StepRes::Token(StructuredEvent::Key(KeyCode::Backspace, none), 1)
    } else if 0x20 <= b0 && b0 <= 0x7e {
        StepRes::Token(StructuredEvent::Key(KeyCode::Char(b0), none), 1)
    } else if 0x01 <= b0 && b0 <= 0x1a {
        StepRes::Token(
            StructuredEvent::Key(KeyCode::Char(b0 + 0x60), Modifiers { shift: false, alt: false, ctrl: true }),
            1,
        )
    } else if b0 == 0x00 || (0x1c <= b0 && b0 <= 0x1f) {
        StepRes::Token(StructuredEvent::Unknown, 1)
    } else if 0xc2 <= b0 && b0 <= 0xdf {
        step_utf8(buf, i, 2)
    } else if 0xe0 <= b0 && b0 <= 0xef {
        step_utf8(buf, i, 3)
    } else if 0xf0 <= b0 && b0 <= 0xf4 {
        step_utf8(buf, i, 4)
    } else {
        StepRes::Fail
    }
}

/// The stateful decoder of one connection's inbound byte stream.
///
/// `pending` holds the unconsumed incomplete tail of the raw stream;
/// `framed` selects whether the sentinel control framing (encoding 2) is
/// recognized at frame boundaries.
pub struct Decoder {
    pub pending: Vec<u8>,
    pub framed: bool,
}

impl Decoder {
    /// A fresh decoder with no partial input.
    pub fn new(framed: bool) -> (r: Decoder)
        ensures
            r.pending@ == Seq::<u8>::empty(),
            r.framed == framed,
    {
        Decoder { pending: Vec::new(), framed }
    }

    /// Decode one inbound frame into the events it completes.
    ///
    /// A sentinel-led frame in framed mode is consumed whole as one resize,
    /// leaving the raw-stream state untouched. Any other frame extends the
    /// raw stream: the events of all tokens now complete are returned and
    /// the incomplete tail is kept for the next call. A malformed stream
    /// fails, and the decoder's partial state is discarded as unusable.
    #[verifier::rlimit(50)]
    pub fn decode(&mut self, frame: &[u8]) -> (r: Result<Vec<StructuredEvent>, DecodeError>)
        ensures
            final(self).framed == old(self).framed,
            ({
                if old(self).framed && frame@.len() > 0 && frame@[0] == SENTINEL {
                    &&& r is Ok
                    &&& events_value(r->Ok_0@) == seq![resize_event_of(frame@)]
                    &&& final(self).pending@ == old(self).pending@
                } else {
                    match scan(old(self).pending@ + frame@) {
                        Scanned::Done(evs, p) => {
                            &&& r is Ok
                            &&& events_value(r->Ok_0@) == evs
                            &&& final(self).pending@ == p
                        },
                        Scanned::Malformed => {
                            &&& r is Err
                            &&& final(self).pending@ == Seq::<u8>::empty()
                        },
                    }
                }
            }),
    {
        if self.framed && frame.len() > 0 && frame[0] == SENTINEL {
            let cols: u16 = if frame.len() >= 2 {
                frame[1] as u16
            } else {
                0
            };
            let rows: u16 = if frame.len() >= 3 {
                frame[2] as u16
            } else {
                0
            };
            let mut events: Vec<StructuredEvent> = Vec::new();
            events.push(StructuredEvent::Resize(cols, rows));
            proof {
                assert(events_value(events@) =~= seq![resize_event_of(frame@)]);
            }
            return Ok(events);
        }

        let mut buf: Vec<u8> = Vec::new();
        core::mem::swap(&mut buf, &mut self.pending);
        buf.extend_from_slice(frame);
        proof {
            assert(buf@ =~= old(self).pending@ + frame@);
        }

        let mut events: Vec<StructuredEvent> = Vec::new();
        let mut i: usize = 0;
        proof {
            assert(buf@.skip(0) =~= buf@);
            assert(events_value(events@) =~= Seq::<EventValue>::empty());
            match scan(buf@) {
                Scanned::Done(evs, p) => {
                    assert(Seq::<EventValue>::empty() + evs =~= evs);
                },
                Scanned::Malformed => {},
            }
        }
        loop
            invariant
                i <= buf@.len(),
                buf@ == old(self).pending@ + frame@,
                self.framed == old(self).framed,
                !(old(self).framed && frame@.len() > 0 && frame@[0] == SENTINEL),
                ({
                    match scan(buf@.skip(i as int)) {
                        Scanned::Done(evs, p) => scan(buf@) == Scanned::Done(
                            events_value(events@) + evs,
                            p,
                        ),
                        Scanned::Malformed => scan(buf@) == Scanned::Malformed,
                    }
                }),
            decreases buf@.len() - i,
        {
            if i == buf.len() {
                proof {
                    assert(buf@.skip(i as int) =~= Seq::<u8>::empty());
                    assert(scan(buf@.skip(i as int)) == Scanned::Done(
                        Seq::<EventValue>::empty(),
                        Seq::<u8>::empty(),
                    ));
                    assert(events_value(events@) + Seq::<EventValue>::empty() =~= events_value(
                        events@,
                    ));
                }
                self.pending = Vec::new();
                return Ok(events);
            }
            let ghost sfx = buf@.skip(i as int);
            assert(sfx.len() > 0);
            match step_at(&buf, i) {
                StepRes::More => {
                    assert(scan(sfx) == Scanned::Done(Seq::<EventValue>::empty(), sfx));
                    proof {
                        assert(events_value(events@) + Seq::<EventValue>::empty() =~= events_value(
                            events@,
                        ));
                    }
                    let tail = copy_range(&buf, i, buf.len());
                    proof {
                        assert(tail@ =~= sfx);
                    }
                    self.pending = tail;
                    return Ok(events);
                },
                StepRes::Fail => {
                    assert(scan(sfx) == Scanned::Malformed);
                    self.pending = Vec::new();
                    return Err(DecodeError);
                },
                StepRes::Token(ev, n) => {
                    let ghost evs_pre = events_value(events@);
                    let ghost evv = ev@;
                    events.push(ev);
                    proof {
                        assert(events_value(events@) =~= evs_pre + seq![evv]);
                        assert(sfx.subrange(n as int, sfx.len() as int) =~= buf@.skip(i + n));
                        match scan(buf@.skip(i + n)) {
                            Scanned::Done(evs2, p2) => {
                                assert(scan(sfx) == Scanned::Done(seq![evv] + evs2, p2));
                                assert((evs_pre + seq![evv]) + evs2 =~= evs_pre + (seq![evv]
                                    + evs2));
                            },
                            Scanned::Malformed => {
                                assert(scan(sfx) == Scanned::Malformed);
                            },
                        }
                    }
                    i = i + n;
                },
            }
        }
    }
}

} // verus!
