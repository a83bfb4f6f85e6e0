//! Review-workbench helpers: handshake, git header, chat copy, previews.

use vstd::prelude::*;
use crate::connection::ConnectionState;
use crate::diff_view::{utf8_len, utf8_width};
use crate::text::{
    append_str, chars_of, dec, find_sub, lines_of, lines_s, occurs_at, push_dec, starts_with_str,
    starts_with_s, string_of, sub_vec, trim_s, trim_vec, views,
};
use crate::article::{dec_value, first_occ};

verus! {

/// Banner under the chat header.
pub fn context_strip() -> (r: &'static str)
    ensures
        r@ == "Grok does not see earlier bubbles. This send is a new process."@,
{
    "Grok does not see earlier bubbles. This send is a new process."
}

/// `Grok is working · <s>s`, or `<m>m <s>s` from a minute on.
pub fn working_copy(elapsed_secs: u64) -> (r: String)
    ensures
        r@ == "Grok is working · "@ + (if elapsed_secs >= 60 {
            dec((elapsed_secs / 60) as nat) + "m "@ + dec((elapsed_secs % 60) as nat) + "s"@
        } else {
            dec(elapsed_secs as nat) + "s"@
        }),
{
    let mut v: Vec<char> = Vec::new();
    append_str(&mut v, "Grok is working · ");
    if elapsed_secs >= 60 {
        push_dec(&mut v, elapsed_secs / 60);
        append_str(&mut v, "m ");
        push_dec(&mut v, elapsed_secs % 60);
        append_str(&mut v, "s");
    } else {
        push_dec(&mut v, elapsed_secs);
        append_str(&mut v, "s");
    }
    let r = string_of(&v);
    assert(r@ =~= "Grok is working · "@ + (if elapsed_secs >= 60 {
        dec((elapsed_secs / 60) as nat) + "m "@ + dec((elapsed_secs % 60) as nat) + "s"@
    } else {
        dec(elapsed_secs as nat) + "s"@
    }));
    r
}

/// Ready only after both hello and ping succeed.
pub fn handshake_state(hello_ok: bool, ping_ok: bool) -> (r: ConnectionState)
    ensures
        hello_ok && ping_ok ==> r is Ready,
        hello_ok != ping_ok ==> r is Connecting,
        !hello_ok && !ping_ok ==> r is Disconnected,
{
    if hello_ok && ping_ok {
        ConnectionState::Ready
    } else if hello_ok || ping_ok {
        ConnectionState::Connecting
    } else {
        ConnectionState::Disconnected
    }
}

/// Leading ASCII digits of `s`.
pub open spec fn digit_run(s: Seq<char>, i: int) -> int
    decreases s.len() - i,
{
    if 0 <= i < s.len() && '0' <= s[i] <= '9' {
        digit_run(s, i + 1)
    } else {
        i
    }
}

/// `line.split(key).nth(1)`, then its leading digits parsed as `i64`
/// (0 when missing or out of range).
pub open spec fn count_after(line: Seq<char>, key: Seq<char>) -> i64 {
    let f = first_occ(line, key);
    if f < 0 {
        0
    } else {
        let after = line.skip(f + key.len());
        let g = first_occ(after, key);
        let seg = if g < 0 {
            after
        } else {
            after.take(g)
        };
        let digits = seg.take(digit_run(seg, 0));
        if digits.len() == 0 || dec_value(digits) > i64::MAX {
            0
        } else {
            dec_value(digits) as i64
        }
    }
}

pub open spec fn first_line(s: Seq<char>) -> Seq<char> {
    if lines_s(s).len() > 0 {
        lines_s(s)[0]
    } else {
        Seq::empty()
    }
}

pub open spec fn ahead_behind(status: Seq<char>) -> Option<(i64, i64)> {
    let l = first_line(status);
    let a = count_after(l, "ahead "@);
    let b = count_after(l, "behind "@);
    if a == 0 && b == 0 {
        None
    } else {
        Some((a, b))
    }
}

proof fn lemma_digit_run(s: Seq<char>, i: int)
    requires
        0 <= i <= s.len(),
    ensures
        i <= digit_run(s, i) <= s.len(),
        forall|k: int| i <= k < digit_run(s, i) ==> '0' <= #[trigger] s[k] <= '9',
    decreases s.len() - i,
{
    if i < s.len() && '0' <= s[i] <= '9' {
        lemma_digit_run(s, i + 1);
    }
}

proof fn lemma_first_occ(s: Seq<char>, p: Seq<char>, k: usize)
    requires
        occurs_at(s, p, k as int),
        forall|j: int| 0 <= j < k ==> !occurs_at(s, p, j),
    ensures
        first_occ(s, p) == k as int,
{
    let w = choose|i: int| occurs_at(s, p, i) && forall|j: int| 0 <= j < i ==> !occurs_at(s, p, j);
    if w != k as int {
        if w < k {
            assert(!occurs_at(s, p, w));
        } else {
            assert(!occurs_at(s, p, k as int));
        }
    }
}

fn capture_count(line: &Vec<char>, key: &str) -> (r: i64)
    ensures
        r == count_after(line@, key@),
{
    let kv = chars_of(key);
    match find_sub(line, &kv) {
        None => 0,
        Some(f) => {
            proof {
                lemma_first_occ(line@, key@, f);
            }
            assert(f + kv.len() <= line.len());
            let start = f + kv.len();
            let after = sub_vec(line, start, line.len());
            assert(after@ =~= line@.skip(f + key@.len()));
            let seg = match find_sub(&after, &kv) {
                None => after,
                Some(g) => {
                    proof {
                        lemma_first_occ(after@, key@, g);
                    }
                    let s = sub_vec(&after, 0, g);
                    assert(s@ =~= after@.take(g as int));
                    s
                },
            };
            let mut n: usize = 0;
            while n < seg.len() && '0' <= seg[n] && seg[n] <= '9'
                invariant
                    n <= seg.len(),
                    digit_run(seg@, n as int) == digit_run(seg@, 0),
                decreases seg.len() - n,
            {
                n = n + 1;
            }
            proof {
                lemma_digit_run(seg@, 0);
            }
            let digits = sub_vec(&seg, 0, n);
            assert(digits@ =~= seg@.take(n as int));
            assert(crate::article::digit_seq(digits@));
            digits_i64(&digits)
        },
    }
}

fn digits_i64(d: &Vec<char>) -> (r: i64)
    requires
        crate::article::digit_seq(d@),
    ensures
        r == (if d@.len() == 0 || dec_value(d@) > i64::MAX {
            0
        } else {
            dec_value(d@) as i64
        }),
{
    if d.len() == 0 {
        return 0;
    }
    let mut v: u128 = 0;
    let mut j: usize = 0;
    while j < d.len()
        invariant
            j <= d.len(),
            crate::article::digit_seq(d@),
            v == dec_value(d@.take(j as int)),
            v <= i64::MAX,
        decreases d.len() - j,
    {
        assert(d@.take(j + 1).drop_last() =~= d@.take(j as int));
        assert('0' <= d@[j as int] <= '9');
        let c = d[j];
        let digit = (c as u32 - '0' as u32) as u128;
        v = v * 10 + digit;
        j = j + 1;
        if v > i64::MAX as u128 {
            proof {
                lemma_dec_value_prefix(d@, j as int);
            }
            return 0;
        }
    }
    assert(d@.take(d.len() as int) =~= d@);
    v as i64
}

proof fn lemma_dec_value_prefix(s: Seq<char>, i: int)
    requires
        0 <= i <= s.len(),
    ensures
        dec_value(s.take(i)) <= dec_value(s),
    decreases s.len() - i,
{
    if i < s.len() {
        lemma_dec_value_prefix(s, i + 1);
        assert(s.take(i + 1).drop_last() =~= s.take(i));
    } else {
        assert(s.take(i) =~= s);
    }
}

fn first_line_of(s: &Vec<char>) -> (r: Vec<char>)
    ensures
        r@ == first_line(s@),
{
    let ls = lines_of(s);
    if ls.len() > 0 {
        assert(views(ls@)[0] == ls@[0]@);
        sub_vec(&ls[0], 0, ls[0].len())
    } else {
        Vec::new()
    }
}

/// `## main...origin/main [ahead 2, behind 1]` gives `(2, 1)`; `None` when
/// both counts are zero.
pub fn git_ahead_behind(status: &str) -> (r: Option<(i64, i64)>)
    ensures
        r == ahead_behind(status@),
{
    let s = chars_of(status);
    let line = first_line_of(&s);
    assert(line@ =~= first_line(status@));
    let ahead = capture_count(&line, "ahead ");
    let behind = capture_count(&line, "behind ");
    if ahead == 0 && behind == 0 {
        None
    } else {
        Some((ahead, behind))
    }
}

/// Some line is neither blank nor the `##` header.
pub open spec fn dirty(status: Seq<char>) -> bool {
    exists|i: int|
        0 <= i < lines_s(status).len() && trim_s(#[trigger] lines_s(status)[i]).len() > 0
            && !starts_with_s(trim_s(lines_s(status)[i]), "##"@)
}

/// Dirty when any porcelain line is not the `##` header.
pub fn git_dirty(status: &str) -> (r: bool)
    ensures
        r == dirty(status@),
{
    let s = chars_of(status);
    let ls = lines_of(&s);
    let mut i: usize = 0;
    while i < ls.len()
        invariant
            i <= ls.len(),
            views(ls@) == lines_s(status@),
            forall|k: int|
                0 <= k < i ==> !(trim_s(#[trigger] lines_s(status@)[k]).len() > 0 && !starts_with_s(
                    trim_s(lines_s(status@)[k]),
                    "##"@,
                )),
        decreases ls.len() - i,
    {
        assert(views(ls@)[i as int] == ls@[i as int]@);
        let t = trim_vec(&ls[i]);
        if t.len() > 0 && !starts_with_str(&t, "##") {
            return true;
        }
        i = i + 1;
    }
    false
}

/// Project, branch, `dirty`/`clean` and `ahead A behind B`/`even`, one per
/// line.
pub fn git_header(project: &str, branch: &str, status: &str) -> (r: String)
    ensures
        r@ == project@ + "\n"@ + branch@ + "\n"@ + (if dirty(status@) {
            "dirty"@
        } else {
            "clean"@
        }) + "\n"@ + (match ahead_behind(status@) {
            Some((a, b)) => "ahead "@ + crate::text::idec(a as int) + " behind "@ + crate::text::idec(b as int),
            None => "even"@,
        }),
{
    let mut v: Vec<char> = Vec::new();
    append_str(&mut v, project);
    append_str(&mut v, "\n");
    append_str(&mut v, branch);
    append_str(&mut v, "\n");
    let d = dirty_word(status);
    append_str(&mut v, d);
    append_str(&mut v, "\n");
    let ab = ahead_behind_text(status);
    crate::text::append_vec(&mut v, &ab);
    let r = string_of(&v);
    assert(r@ =~= project@ + "\n"@ + branch@ + "\n"@ + d@ + "\n"@ + ab@);
    r
}

fn dirty_word(status: &str) -> (r: &'static str)
    ensures
        r@ == (if dirty(status@) {
            "dirty"@
        } else {
            "clean"@
        }),
{
    if git_dirty(status) {
        "dirty"
    } else {
        "clean"
    }
}

fn ahead_behind_text(status: &str) -> (r: Vec<char>)
    ensures
        r@ == (match ahead_behind(status@) {
            Some((a, b)) => "ahead "@ + crate::text::idec(a as int) + " behind "@ + crate::text::idec(b as int),
            None => "even"@,
        }),
{
    let mut v: Vec<char> = Vec::new();
    match git_ahead_behind(status) {
        Some((a, b)) => {
            append_str(&mut v, "ahead ");
            crate::text::push_idec(&mut v, a);
            append_str(&mut v, " behind ");
            crate::text::push_idec(&mut v, b);
            assert(v@ =~= "ahead "@ + crate::text::idec(a as int) + " behind "@ + crate::text::idec(b as int));
        },
        None => append_str(&mut v, "even"),
    }
    v
}

/// Cap on previewed diff text, in bytes.
pub const DIFF_TEXT_CAP: usize = 65536;

/// Chars of `s` from `i` on that still fit in `max` UTF-8 bytes.
pub open spec fn fit_chars(s: Seq<char>, max: int, i: int) -> int
    decreases s.len() - i,
{
    if 0 <= i < s.len() && utf8_len(s.take(i + 1)) <= max {
        fit_chars(s, max, i + 1)
    } else {
        i
    }
}

/// `cap_text`: empty for a zero cap; the text when it fits; else the longest
/// char prefix within the cap, then `…`.
pub open spec fn capped_text(s: Seq<char>, max: int) -> Seq<char> {
    if max == 0 {
        Seq::empty()
    } else if utf8_len(s) <= max {
        s
    } else {
        s.take(fit_chars(s, max, 0)) + "…"@
    }
}

proof fn lemma_fit(s: Seq<char>, max: int, i: int)
    requires
        0 <= i <= s.len(),
    ensures
        i <= fit_chars(s, max, i) <= s.len(),
    decreases s.len() - i,
{
    if i < s.len() && utf8_len(s.take(i + 1)) <= max {
        lemma_fit(s, max, i + 1);
    }
}

/// Cap preview text at `max` bytes on a char boundary. Empty stays empty.
pub fn cap_text(text: &str, max: usize) -> (r: String)
    ensures
        r@ == capped_text(text@, max as int),
{
    if max == 0 {
        return String::new();
    }
    let s = chars_of(text);
    let mut b: usize = 0;
    let mut i: usize = 0;
    while i < s.len() && width_of_char(s[i]) <= max - b
        invariant
            i <= s.len(),
            b == utf8_len(s@.take(i as int)),
            b <= max,
            fit_chars(s@, max as int, i as int) == fit_chars(s@, max as int, 0),
        decreases s.len() - i,
    {
        assert(s@.take(i + 1).drop_last() =~= s@.take(i as int));
        b = b + width_of_char(s[i]);
        i = i + 1;
    }
    proof {
        lemma_fit(s@, max as int, 0);
        if i < s.len() {
            assert(s@.take(i + 1).drop_last() =~= s@.take(i as int));
        }
    }
    if i == s.len() {
        assert(s@.take(i as int) =~= s@);
        return text.to_owned();
    }
    proof {
        crate::diff_view::lemma_utf8_len_mono(s@, i + 1);
    }
    let mut out = sub_vec(&s, 0, i);
    append_str(&mut out, "…");
    string_of(&out)
}

fn width_of_char(c: char) -> (r: usize)
    ensures
        r == utf8_width(c),
        1 <= r <= 4,
{
    if (c as u32) < 0x80 {
        1
    } else if (c as u32) < 0x800 {
        2
    } else if (c as u32) < 0x10000 {
        3
    } else {
        4
    }
}

/// `git diff -- <path>` (unstaged first; the caller may run `--cached` next).
pub fn git_diff_line(path: &str) -> (r: String)
    ensures
        r@ == "git diff -- "@ + path@,
{
    let mut v: Vec<char> = Vec::new();
    append_str(&mut v, "git diff -- ");
    append_str(&mut v, path);
    let r = string_of(&v);
    assert(r@ =~= "git diff -- "@ + path@);
    r
}

} // verus!
