//! Recover composer lines from bytes written into a hosted TUI's terminal.

use vstd::prelude::*;
use vstd::utf8::{decode_utf8, encode_utf8, valid_utf8};
use crate::text::{chars_of, is_ascii_alpha, is_control, is_control_char, string_of, trim_s, trim_vec};

verus! {

/// Accumulates printable keystrokes until Enter.
#[derive(Debug, Clone, PartialEq, Eq)]
pub struct TuiInputBuf {
    line: String,
    skipping_esc: bool,
}

/// The buffer as plain values: the pending line, and whether an escape
/// sequence is being skipped.
pub struct TuiV {
    pub line: Seq<char>,
    pub skipping: bool,
}

impl View for TuiInputBuf {
    type V = TuiV;

    closed spec fn view(&self) -> TuiV {
        TuiV { line: self.line@, skipping: self.skipping_esc }
    }
}

/// One char of input: the new state and the completed line, if any.
pub open spec fn tui_step(st: TuiV, ch: char) -> (TuiV, Option<Seq<char>>) {
    if st.skipping {
        (TuiV { skipping: !(is_ascii_alpha(ch) || ch == '~'), ..st }, None)
    } else if ch == '\u{1b}' {
        (TuiV { skipping: true, ..st }, None)
    } else if ch == '\r' || ch == '\n' {
        let l = trim_s(st.line);
        (TuiV { line: Seq::empty(), ..st }, if l.len() == 0 {
            None
        } else {
            Some(l)
        })
    } else if ch == '\u{8}' || ch == '\u{7f}' {
        (TuiV {
            line: if st.line.len() > 0 {
                st.line.drop_last()
            } else {
                st.line
            },
            ..st
        }, None)
    } else if ch == '\t' {
        (TuiV { line: st.line.push(' '), ..st }, None)
    } else if is_control(ch) {
        (st, None)
    } else {
        (TuiV { line: st.line.push(ch), ..st }, None)
    }
}

/// State and completed lines after the first `n` chars of `s`.
pub open spec fn tui_run(st: TuiV, s: Seq<char>, n: int) -> (TuiV, Seq<Seq<char>>)
    decreases n,
{
    if n <= 0 || n > s.len() {
        (st, Seq::empty())
    } else {
        let (mid, outs) = tui_run(st, s, n - 1);
        let (next, o) = tui_step(mid, s[n - 1]);
        (next, match o {
            Some(l) => outs.push(l),
            None => outs,
        })
    }
}

/// Reading all of `s` from state `st`.
pub open spec fn tui_all(st: TuiV, s: Seq<char>) -> (TuiV, Seq<Seq<char>>) {
    tui_run(st, s, s.len() as int)
}

/// Feeding valid UTF-8 bytes: reading the text they encode.
pub open spec fn tui_feed(st: TuiV, bytes: Seq<u8>) -> (TuiV, Seq<Seq<char>>) {
    tui_all(st, decode_utf8(bytes))
}

proof fn lemma_run_prefix(st: TuiV, s1: Seq<char>, s2: Seq<char>, k: int)
    requires
        0 <= k <= s1.len(),
        k <= s2.len(),
        s1.take(k) == s2.take(k),
    ensures
        tui_run(st, s1, k) == tui_run(st, s2, k),
    decreases k,
{
    if k > 0 {
        assert(s1.take(k - 1) =~= s1.take(k).take(k - 1));
        assert(s2.take(k - 1) =~= s2.take(k).take(k - 1));
        lemma_run_prefix(st, s1, s2, k - 1);
        assert(s1[k - 1] == s1.take(k)[k - 1]);
        assert(s2[k - 1] == s2.take(k)[k - 1]);
    }
}

proof fn lemma_run_concat(st: TuiV, a: Seq<char>, b: Seq<char>, n: int)
    requires
        0 <= n <= b.len(),
    ensures
        tui_run(st, a + b, a.len() + n) == (
            tui_run(tui_all(st, a).0, b, n).0,
            tui_all(st, a).1 + tui_run(tui_all(st, a).0, b, n).1,
        ),
    decreases n,
{
    if n == 0 {
        assert((a + b).take(a.len() as int) =~= a.take(a.len() as int));
        lemma_run_prefix(st, a + b, a, a.len() as int);
        assert(tui_all(st, a).1 + Seq::<Seq<char>>::empty() =~= tui_all(st, a).1);
    } else {
        lemma_run_concat(st, a, b, n - 1);
        assert((a + b)[a.len() + n - 1] == b[n - 1]);
        let mid = tui_run(tui_all(st, a).0, b, n - 1);
        let o = tui_step(mid.0, b[n - 1]).1;
        if let Some(l) = o {
            assert(tui_all(st, a).1 + mid.1.push(l) =~= (tui_all(st, a).1 + mid.1).push(l));
        }
    }
}

/// Reading text in two pieces is reading it whole: the state carries over
/// and the lines of the pieces follow each other.
pub proof fn law_read_chunking(st: TuiV, a: Seq<char>, b: Seq<char>)
    ensures
        tui_all(st, a + b) == (tui_all(tui_all(st, a).0, b).0, tui_all(st, a).1 + tui_all(
            tui_all(st, a).0,
            b,
        ).1),
{
    lemma_run_concat(st, a, b, b.len() as int);
}

proof fn lemma_encode_concat(a: Seq<char>, b: Seq<char>)
    ensures
        encode_utf8(a + b) == encode_utf8(a) + encode_utf8(b),
    decreases a.len(),
{
    if a.len() > 0 {
        lemma_encode_concat(a.drop_first(), b);
        assert((a + b).drop_first() =~= a.drop_first() + b);
        assert((a + b)[0] == a[0]);
        assert(encode_utf8(a + b) =~= vstd::utf8::encode_scalar(a[0] as u32) + (encode_utf8(
            a.drop_first(),
        ) + encode_utf8(b)));
    } else {
        assert(a + b =~= b);
    }
}

/// Feeding valid UTF-8 in two chunks is feeding it at once.
pub proof fn law_feed_chunking(st: TuiV, x: Seq<u8>, y: Seq<u8>)
    requires
        valid_utf8(x),
        valid_utf8(y),
    ensures
        valid_utf8(x + y),
        tui_feed(st, x + y) == (tui_feed(tui_feed(st, x).0, y).0, tui_feed(st, x).1 + tui_feed(
            tui_feed(st, x).0,
            y,
        ).1),
{
    broadcast use vstd::utf8::decode_utf8_encode_utf8, vstd::utf8::encode_utf8_decode_utf8, vstd::utf8::encode_utf8_valid_utf8;
    let a = decode_utf8(x);
    let b = decode_utf8(y);
    lemma_encode_concat(a, b);
    assert(x + y == encode_utf8(a + b));
    law_read_chunking(st, a, b);
}

pub open spec fn string_views(v: Seq<String>) -> Seq<Seq<char>> {
    v.map_values(|s: String| s@)
}

/// Text that `String::from_utf8_lossy` decodes from these bytes.
pub uninterp spec fn utf8_lossy(b: Seq<u8>) -> Seq<char>;

/// `String::from_utf8_lossy` (std): decodes UTF-8, each invalid sequence
/// becoming U+FFFD. The decoding of invalid input is named, not restated;
/// valid UTF-8 comes back as the text it encodes.
#[verifier::external_body]
pub(crate) fn decode_lossy(bytes: &[u8]) -> (r: String)
    ensures
        r@ == utf8_lossy(bytes@),
        valid_utf8(bytes@) ==> r@ == decode_utf8(bytes@),
{
    String::from_utf8_lossy(bytes).into_owned()
}

impl TuiInputBuf {
    pub fn new() -> (b: Self)
        ensures
            b@.line == Seq::<char>::empty(),
            !b@.skipping,
    {
        TuiInputBuf { line: String::new(), skipping_esc: false }
    }

    /// Feed decoded text. Completed lines (Enter) are returned trimmed.
    pub fn feed_text(&mut self, text: &str) -> (r: Vec<String>)
        ensures
            (final(self)@, string_views(r@)) == tui_run(old(self)@, text@, text@.len() as int),
    {
        let cs = chars_of(text);
        let mut line = chars_of(self.line.as_str());
        let mut out: Vec<String> = Vec::new();
        let mut i: usize = 0;
        while i < cs.len()
            invariant
                i <= cs.len(),
                cs@ == text@,
                (TuiV { line: line@, skipping: self.skipping_esc }, string_views(out@)) == tui_run(
                    old(self)@,
                    text@,
                    i as int,
                ),
            decreases cs.len() - i,
        {
            let ch = cs[i];
            let ghost before = out@;
            if self.skipping_esc {
                if ('a' <= ch && ch <= 'z') || ('A' <= ch && ch <= 'Z') || ch == '~' {
                    self.skipping_esc = false;
                }
            } else if ch == '\u{1b}' {
                self.skipping_esc = true;
            } else if ch == '\r' || ch == '\n' {
                let l = trim_vec(&line);
                line = Vec::new();
                if l.len() != 0 {
                    out.push(string_of(&l));
                    assert(string_views(out@) =~= string_views(before).push(l@));
                }
            } else if ch == '\u{8}' || ch == '\u{7f}' {
                if line.len() > 0 {
                    line.pop();
                }
            } else if ch == '\t' {
                line.push(' ');
            } else if is_control_char(ch) {
            } else {
                line.push(ch);
            }
            i = i + 1;
        }
        self.line = string_of(&line);
        out
    }

    /// Feed raw terminal input: the bytes are decoded as `from_utf8_lossy`
    /// does, then read as `feed_text` reads text.
    pub fn feed(&mut self, bytes: &[u8]) -> (r: Vec<String>)
        ensures
            (final(self)@, string_views(r@)) == tui_run(
                old(self)@,
                utf8_lossy(bytes@),
                utf8_lossy(bytes@).len() as int,
            ),
            valid_utf8(bytes@) ==> (final(self)@, string_views(r@)) == tui_feed(old(self)@, bytes@),
    {
        let text = decode_lossy(bytes);
        self.feed_text(text.as_str())
    }

    pub fn pending(&self) -> (r: &str)
        ensures
            r@ == self@.line,
    {
        self.line.as_str()
    }
}

impl Default for TuiInputBuf {
    fn default() -> (b: Self)
        ensures
            b@.line == Seq::<char>::empty(),
            !b@.skipping,
    {
        Self::new()
    }
}

} // verus!
