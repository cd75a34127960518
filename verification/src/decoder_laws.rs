//! Laws of the input event decoder.
//!
//! The statements here are the decoder's headline guarantees: what a
//! complete resize frame and a truncated one decode to, that a complete
//! well-formed escape sequence never fails the decode, and that splitting a
//! stream across two decode calls at any byte boundary changes nothing.

use vstd::prelude::*;

use crate::decoder::{
    csi_event, csi_scan_from, find_paste_end, is_csi_body, is_csi_final, is_utf8_cont,
    paste_end, paste_start, resize_event_of, scan, scan_csi, scan_esc, scan_step,
    scan_utf8_tail, ss3_event, starts_with, Scanned, ScanStep, SENTINEL,
};
use crate::events::EventValue;

verus! {

// ---------------------------------------------------------------------------
// Resize frames.
// ---------------------------------------------------------------------------

/// A complete resize frame — the sentinel and two dimension bytes — carries
/// exactly the resize event of those two bytes, for every pair of them.
pub proof fn lemma_resize_frame_event(cols: u8, rows: u8)
    ensures
        resize_event_of(seq![SENTINEL, cols, rows]) == EventValue::Resize(
            cols as u16,
            rows as u16,
        ),
{
    let frame = seq![SENTINEL, cols, rows];
    assert(frame[1] == cols);
    assert(frame[2] == rows);
}

/// A resize frame truncated after the sentinel still decodes; each missing
/// dimension reads as zero.
pub proof fn lemma_truncated_resize_frame(cols: u8)
    ensures
        resize_event_of(seq![SENTINEL]) == EventValue::Resize(0, 0),
        resize_event_of(seq![SENTINEL, cols]) == EventValue::Resize(cols as u16, 0),
{
    assert(seq![SENTINEL, cols][1] == cols);
}

// ---------------------------------------------------------------------------
// Well-formed escape sequences.
// ---------------------------------------------------------------------------

/// A complete ordinary control sequence: `ESC [`, body bytes, one final
/// byte — and not the bare bracketed-paste opening marker, which is only
/// the start of a longer token.
pub open spec fn wf_csi(s: Seq<u8>) -> bool {
    &&& s.len() >= 3
    &&& s[0] == 0x1b
    &&& s[1] == 0x5b
    &&& (forall|j: int| 2 <= j < s.len() - 1 ==> is_csi_body(#[trigger] s[j]))
    &&& is_csi_final(s[s.len() - 1])
    &&& s != paste_start()
}

/// A complete `ESC O` sequence.
pub open spec fn wf_ss3(s: Seq<u8>) -> bool {
    s.len() == 3 && s[0] == 0x1b && s[1] == 0x4f && is_csi_final(s[2])
}

/// A complete bracketed paste: the opening marker, the pasted bytes, and
/// the first closing marker standing exactly at the end.
pub open spec fn wf_paste(s: Seq<u8>) -> bool {
    &&& s.len() >= 12
    &&& starts_with(s, paste_start())
    &&& find_paste_end(s, 6) == Some(s.len() - 6)
}

/// A complete, well-formed escape sequence of the raw encoding.
pub open spec fn wf_escape_sequence(s: Seq<u8>) -> bool {
    wf_csi(s) || wf_ss3(s) || wf_paste(s)
}

proof fn lemma_csi_scan_complete(s: Seq<u8>, j: int)
    requires
        wf_csi(s),
        2 <= j <= s.len() - 1,
    ensures
        csi_scan_from(s, j) == ScanStep::Tok(
            csi_event(s.subrange(2, s.len() - 1), s[s.len() - 1]),
            s.len() as int,
        ),
    decreases s.len() - j,
{
    if j < s.len() - 1 {
        assert(is_csi_body(s[j]));
        lemma_csi_scan_complete(s, j + 1);
    } else {
        assert(!is_csi_body(s[j])) by {
            assert(is_csi_final(s[j]));
        }
    }
}

/// A complete, well-formed, non-sentinel escape sequence never fails the
/// decode: it scans to exactly one event with nothing left over.
pub proof fn lemma_complete_sequence_decodes(s: Seq<u8>)
    requires
        wf_escape_sequence(s),
    ensures
        scan(s) is Done,
        scan(s)->Done_0.len() == 1,
        scan(s)->Done_1 == Seq::<u8>::empty(),
{
    assert(s.len() > 0);
    if wf_csi(s) {
        assert(!starts_with(s, paste_start())) by {
            if starts_with(s, paste_start()) {
                if s.len() == 6 {
                    assert(s =~= paste_start());
                } else {
                    assert(s[5] == paste_start()[5]);
                    assert(s[5] == 0x7e);
                    assert(is_csi_body(s[5]));
                }
            }
        }
        lemma_csi_scan_complete(s, 2);
        assert(scan_step(s) == ScanStep::Tok(
            csi_event(s.subrange(2, s.len() - 1), s[s.len() - 1]),
            s.len() as int,
        ));
    } else if wf_ss3(s) {
        assert(scan_step(s) == ScanStep::Tok(ss3_event(s[2]), 3));
    } else {
        assert(wf_paste(s));
        assert(starts_with(s, paste_start()));
        assert(s[0] == paste_start()[0] && s[1] == paste_start()[1]) by {
            assert(s.subrange(0, 6)[0] == s[0]);
            assert(s.subrange(0, 6)[1] == s[1]);
        }
        assert(scan_step(s) == ScanStep::Tok(
            EventValue::Paste(s.subrange(6, s.len() - 6)),
            s.len() as int,
        ));
    }
    assert(s.subrange(s.len() as int, s.len() as int) =~= Seq::<u8>::empty());
    assert(scan(Seq::<u8>::empty()) == Scanned::Done(
        Seq::<EventValue>::empty(),
        Seq::<u8>::empty(),
    ));
}

// ---------------------------------------------------------------------------
// Stability of the head scan under extension, and the split law.
// ---------------------------------------------------------------------------

proof fn lemma_find_paste_end_range(s: Seq<u8>, m: int, i: int)
    requires
        find_paste_end(s, m) == Some(i),
    ensures
        m <= i,
        i + 6 <= s.len(),
    decreases s.len() - m,
{
    if !(m < 0 || m + 6 > s.len()) && s.subrange(m, m + 6) != paste_end() {
        lemma_find_paste_end_range(s, m + 1, i);
    }
}

proof fn lemma_find_paste_end_extend(s: Seq<u8>, t: Seq<u8>, m: int, i: int)
    requires
        0 <= m,
        find_paste_end(s, m) == Some(i),
    ensures
        find_paste_end(s + t, m) == Some(i),
    decreases s.len() - m,
{
    lemma_find_paste_end_range(s, m, i);
    assert((s + t).subrange(m, m + 6) =~= s.subrange(m, m + 6));
    if s.subrange(m, m + 6) == paste_end() {
        assert(find_paste_end(s, m) == Some(m));
    } else {
        lemma_find_paste_end_extend(s, t, m + 1, i);
    }
}

proof fn lemma_csi_from_extend(s: Seq<u8>, t: Seq<u8>, j: int)
    requires
        2 <= j,
        csi_scan_from(s, j) is Tok || csi_scan_from(s, j) is Bad,
    ensures
        csi_scan_from(s + t, j) == csi_scan_from(s, j),
    decreases s.len() - j,
{
    assert(j < s.len());
    assert((s + t)[j] == s[j]);
    if is_csi_body(s[j]) {
        lemma_csi_from_extend(s, t, j + 1);
    } else if is_csi_final(s[j]) {
        assert((s + t).subrange(2, j) =~= s.subrange(2, j));
    }
}

proof fn lemma_csi_decided_has_nonbody(s: Seq<u8>, j: int) -> (m: int)
    requires
        2 <= j,
        csi_scan_from(s, j) is Tok || csi_scan_from(s, j) is Bad,
    ensures
        j <= m < s.len(),
        !is_csi_body(s[m]),
    decreases s.len() - j,
{
    assert(j < s.len());
    if is_csi_body(s[j]) {
        lemma_csi_decided_has_nonbody(s, j + 1)
    } else {
        j
    }
}

proof fn lemma_scan_step_extend(s: Seq<u8>, t: Seq<u8>)
    requires
        s.len() > 0,
        scan_step(s) is Tok || scan_step(s) is Bad,
    ensures
        scan_step(s + t) == scan_step(s),
{
    let st = s + t;
    assert(st[0] == s[0]);
    let b0 = s[0];
    if b0 == 0x1b {
        assert(s.len() >= 2);
        assert(st[1] == s[1]);
        let b1 = s[1];
        if b1 == 0x5b {
            if starts_with(s, paste_start()) {
                assert(starts_with(st, paste_start())) by {
                    assert(st.subrange(0, 6) =~= s.subrange(0, 6));
                }
                match find_paste_end(s, 6) {
                    Some(i) => {
                        lemma_find_paste_end_extend(s, t, 6, i);
                        lemma_find_paste_end_range(s, 6, i);
                        assert(st.subrange(6, i) =~= s.subrange(6, i));
                    },
                    None => {
                        assert(scan_csi(s) == ScanStep::Need);
                    },
                }
            } else {
                assert(!starts_with(st, paste_start())) by {
                    if starts_with(st, paste_start()) {
                        if s.len() >= 6 {
                            assert(s.subrange(0, 6) =~= st.subrange(0, 6));
                        } else {
                            let m = lemma_csi_decided_has_nonbody(s, 2);
                            assert(m < s.len() <= 5);
                            assert(st[m] == s[m]);
                            assert(st.subrange(0, 6)[m] == st[m]);
                            if m < 5 {
                                assert(paste_start()[m] == 0x32 || paste_start()[m] == 0x30);
                                assert(is_csi_body(s[m]));
                            } else {
                                assert(s.len() == 6);
                            }
                        }
                    }
                }
                lemma_csi_from_extend(s, t, 2);
            }
        } else if b1 == 0x4f {
            assert(s.len() >= 3);
            assert(st[2] == s[2]);
        } else {
        }
    } else if 0xc2 <= b0 <= 0xdf || 0xe0 <= b0 <= 0xef || 0xf0 <= b0 <= 0xf4 {
        let n: int = if 0xc2 <= b0 <= 0xdf {
            2
        } else if 0xe0 <= b0 <= 0xef {
            3
        } else {
            4
        };
        assert(scan_step(s) == scan_utf8_tail(s, n));
        assert(scan_step(st) == scan_utf8_tail(st, n));
        if s.len() < n {
            // the scan of `s` was decided early, so some byte already breaks it
            assert(scan_utf8_tail(s, n) is Bad);
            let j = choose|j: int| 1 <= j < s.len() && !is_utf8_cont(s[j]);
            assert(st[j] == s[j]);
            if st.len() < n {
                assert(!(forall|k: int| 1 <= k < st.len() ==> is_utf8_cont(#[trigger] st[k])));
            } else {
                assert(j < n);
                assert(!(forall|k: int| 1 <= k < n ==> is_utf8_cont(#[trigger] st[k])));
            }
        } else {
            assert(st.len() >= n);
            if forall|k: int| 1 <= k < n ==> is_utf8_cont(#[trigger] s[k]) {
                assert(forall|k: int| 1 <= k < n ==> is_utf8_cont(#[trigger] st[k])) by {
                    assert(forall|k: int| 1 <= k < n ==> st[k] == s[k]);
                }
            } else {
                let j = choose|j: int| 1 <= j < n && !is_utf8_cont(s[j]);
                assert(st[j] == s[j]);
                assert(!(forall|k: int| 1 <= k < n ==> is_utf8_cont(#[trigger] st[k])));
            }
        }
    } else {
    }
}

/// Decoding a stream, then decoding more bytes from where it left off,
/// agrees with decoding the whole extended stream at once.
pub proof fn lemma_scan_append(s1: Seq<u8>, s2: Seq<u8>)
    requires
        scan(s1) is Done,
    ensures
        ({
            let evs1 = scan(s1)->Done_0;
            let p1 = scan(s1)->Done_1;
            match scan(p1 + s2) {
                Scanned::Done(evs2, p2) => scan(s1 + s2) == Scanned::Done(evs1 + evs2, p2),
                Scanned::Malformed => scan(s1 + s2) == Scanned::Malformed,
            }
        }),
    decreases s1.len(),
{
    let evs1 = scan(s1)->Done_0;
    let p1 = scan(s1)->Done_1;
    if s1.len() == 0 {
        assert(s1 + s2 =~= s2);
        assert(p1 + s2 =~= s2);
        match scan(s2) {
            Scanned::Done(evs2, p2) => {
                assert(evs1 + evs2 =~= evs2);
            },
            Scanned::Malformed => {},
        }
    } else {
        match scan_step(s1) {
            ScanStep::Need => {
                assert(p1 == s1);
                assert(s1 + s2 =~= p1 + s2);
                match scan(p1 + s2) {
                    Scanned::Done(evs2, p2) => {
                        assert(evs1 + evs2 =~= evs2);
                    },
                    Scanned::Malformed => {},
                }
            },
            ScanStep::Bad => {
                assert(scan(s1) is Malformed);
            },
            ScanStep::Tok(ev, n) => {
                assert(1 <= n <= s1.len());
                lemma_scan_step_extend(s1, s2);
                assert(scan_step(s1 + s2) == ScanStep::Tok(ev, n));
                let rest = s1.subrange(n, s1.len() as int);
                assert((s1 + s2).subrange(n, (s1 + s2).len() as int) =~= rest + s2);
                assert(scan(rest) is Done);
                let evs1r = scan(rest)->Done_0;
                assert(evs1 == seq![ev] + evs1r);
                assert(p1 == scan(rest)->Done_1);
                lemma_scan_append(rest, s2);
                match scan(p1 + s2) {
                    Scanned::Done(evs2, p2) => {
                        assert(scan(rest + s2) == Scanned::Done(evs1r + evs2, p2));
                        assert(scan(s1 + s2) == Scanned::Done(seq![ev] + (evs1r + evs2), p2));
                        assert(seq![ev] + (evs1r + evs2) =~= (seq![ev] + evs1r) + evs2);
                    },
                    Scanned::Malformed => {
                        assert(scan(rest + s2) is Malformed);
                    },
                }
            },
        }
    }
}

proof fn lemma_csi_scan_all_body(s: Seq<u8>, j: int)
    requires
        2 <= j <= s.len(),
        forall|m: int| j <= m < s.len() ==> is_csi_body(#[trigger] s[m]),
    ensures
        csi_scan_from(s, j) == ScanStep::Need,
    decreases s.len() - j,
{
    if j < s.len() {
        lemma_csi_scan_all_body(s, j + 1);
    }
}

proof fn lemma_find_paste_end_first(s: Seq<u8>, m: int, i: int)
    requires
        find_paste_end(s, m) == Some(i),
    ensures
        forall|w: int| m <= w < i ==> #[trigger] s.subrange(w, w + 6) != paste_end(),
    decreases s.len() - m,
{
    if !(m < 0 || m + 6 > s.len()) && s.subrange(m, m + 6) != paste_end() {
        lemma_find_paste_end_first(s, m + 1, i);
    }
}

proof fn lemma_find_paste_end_none(s: Seq<u8>, m: int)
    requires
        0 <= m,
        forall|w: int| m <= w && w + 6 <= s.len() ==> #[trigger] s.subrange(w, w + 6) != paste_end(),
    ensures
        find_paste_end(s, m) is None,
    decreases s.len() - m,
{
    if m + 6 <= s.len() {
        lemma_find_paste_end_none(s, m + 1);
    }
}

/// A strict prefix of one well-formed escape sequence completes no token:
/// it scans to no events, kept whole as the pending tail.
pub proof fn lemma_sequence_prefix_scans_pending(s: Seq<u8>, k: int)
    requires
        wf_escape_sequence(s),
        0 <= k < s.len(),
    ensures
        scan(s.subrange(0, k)) == Scanned::Done(Seq::<EventValue>::empty(), s.subrange(0, k)),
{
    let p = s.subrange(0, k);
    if k == 0 {
        assert(p =~= Seq::<u8>::empty());
        return ;
    }
    assert(p[0] == s[0]);
    if wf_csi(s) || wf_paste(s) {
        if wf_paste(s) {
            assert(s[0] == paste_start()[0] && s[1] == paste_start()[1]) by {
                assert(s.subrange(0, 6)[0] == s[0]);
                assert(s.subrange(0, 6)[1] == s[1]);
            }
        }
        assert(s[0] == 0x1b && s[1] == 0x5b);
        if k == 1 {
            assert(p.len() == 1);
            assert(scan_esc(p) == ScanStep::Need);
        } else {
            assert(p[1] == s[1]);
            if k >= 6 {
                // Only a whole paste opening marker can stand at the head.
                assert(s.len() >= 7);
                if wf_csi(s) {
                    assert(!starts_with(p, paste_start())) by {
                        if starts_with(p, paste_start()) {
                            assert(p.subrange(0, 6)[5] == p[5]);
                            assert(p[5] == s[5]);
                            assert(is_csi_body(s[5]));
                        }
                    }
                    assert forall|m: int| 2 <= m < p.len() implies is_csi_body(
                        #[trigger] p[m],
                    ) by {
                        assert(p[m] == s[m]);
                    }
                    lemma_csi_scan_all_body(p, 2);
                } else {
                    assert(starts_with(p, paste_start())) by {
                        assert(p.subrange(0, 6) =~= s.subrange(0, 6));
                    }
                    lemma_find_paste_end_first(s, 6, s.len() - 6);
                    assert forall|w: int| 6 <= w && w + 6 <= p.len() implies #[trigger] p.subrange(
                        w,
                        w + 6,
                    ) != paste_end() by {
                        assert(p.subrange(w, w + 6) =~= s.subrange(w, w + 6));
                        assert(w < s.len() - 6);
                    }
                    lemma_find_paste_end_none(p, 6);
                    assert(scan_csi(p) == ScanStep::Need);
                }
            } else {
                // Shorter than the paste opening marker: only parameter
                // bytes follow `ESC [`, whichever form `s` takes.
                assert(!starts_with(p, paste_start()));
                assert forall|m: int| 2 <= m < p.len() implies is_csi_body(#[trigger] p[m]) by {
                    assert(p[m] == s[m]);
                    if wf_csi(s) {
                        assert(m < s.len() - 1);
                    } else {
                        assert(s.subrange(0, 6)[m] == s[m]);
                        assert(s[m] == paste_start()[m]);
                    }
                }
                lemma_csi_scan_all_body(p, 2);
            }
        }
    } else {
        assert(wf_ss3(s));
        assert(p.len() <= 2);
        if k == 2 {
            assert(p[1] == s[1]);
        }
        assert(scan_esc(p) == ScanStep::Need);
    }
    assert(scan_step(p) == ScanStep::Need);
}

/// Splitting one well-formed escape sequence across two decode calls at any
/// byte boundary yields the same single event as one undivided call: the
/// first call completes nothing and keeps the bytes, and the second, fed
/// the kept bytes before the rest, completes exactly the sequence's event.
pub proof fn lemma_split_sequence(s: Seq<u8>, k: int)
    requires
        wf_escape_sequence(s),
        0 <= k < s.len(),
    ensures
        scan(s.subrange(0, k)) == Scanned::Done(Seq::<EventValue>::empty(), s.subrange(0, k)),
        scan(s.subrange(0, k) + s.subrange(k, s.len() as int)) == scan(s),
        scan(s) is Done,
        scan(s)->Done_0.len() == 1,
        scan(s)->Done_1 == Seq::<u8>::empty(),
{
    lemma_sequence_prefix_scans_pending(s, k);
    lemma_complete_sequence_decodes(s);
    assert(s.subrange(0, k) + s.subrange(k, s.len() as int) =~= s);
}

/// Splitting one raw input across two decode calls at any byte boundary
/// yields the same events and the same final state as one undivided call:
/// with pending bytes `p`, decoding frame `a` and then frame `b` agrees
/// with decoding the single frame `a + b`.
pub proof fn lemma_split_decode(p: Seq<u8>, a: Seq<u8>, b: Seq<u8>)
    requires
        scan(p + a) is Done,
    ensures
        ({
            let evs1 = scan(p + a)->Done_0;
            let p1 = scan(p + a)->Done_1;
            match scan(p1 + b) {
                Scanned::Done(evs2, p2) => scan(p + (a + b)) == Scanned::Done(evs1 + evs2, p2),
                Scanned::Malformed => scan(p + (a + b)) == Scanned::Malformed,
            }
        }),
{
    lemma_scan_append(p + a, b);
    assert(p + (a + b) =~= (p + a) + b);
}

} // verus!
