//! Cursor-aware composer draft helpers. Cursor values are char indices.

use vstd::prelude::*;
use crate::text::{chars_of, is_whitespace, is_ws, string_of};

verus! {

/// The cursor clamped to `[0, len]`.
pub open spec fn clamp(s: Seq<char>, c: int) -> int {
    if c < s.len() {
        c
    } else {
        s.len() as int
    }
}

/// From `k`, step left over whitespace.
pub open spec fn skip_ws_left(s: Seq<char>, k: int) -> int
    decreases k,
{
    if k > 0 && k <= s.len() && is_ws(s[k - 1]) {
        skip_ws_left(s, k - 1)
    } else {
        k
    }
}

/// From `k`, step left over non-whitespace.
pub open spec fn skip_word_left(s: Seq<char>, k: int) -> int
    decreases k,
{
    if k > 0 && k <= s.len() && !is_ws(s[k - 1]) {
        skip_word_left(s, k - 1)
    } else {
        k
    }
}

pub open spec fn skip_ws_right(s: Seq<char>, k: int) -> int
    decreases s.len() - k,
{
    if 0 <= k < s.len() && is_ws(s[k]) {
        skip_ws_right(s, k + 1)
    } else {
        k
    }
}

pub open spec fn skip_word_right(s: Seq<char>, k: int) -> int
    decreases s.len() - k,
{
    if 0 <= k < s.len() && !is_ws(s[k]) {
        skip_word_right(s, k + 1)
    } else {
        k
    }
}

pub open spec fn word_left(s: Seq<char>, c: int) -> int {
    skip_word_left(s, skip_ws_left(s, clamp(s, c)))
}

pub open spec fn word_right(s: Seq<char>, c: int) -> int {
    skip_word_right(s, skip_ws_right(s, clamp(s, c)))
}

/// Clamp `cursor` to `[0, draft.chars().count()]`.
pub fn clamp_cursor(draft: &str, cursor: usize) -> (r: usize)
    ensures
        r == clamp(draft@, cursor as int),
{
    let n = chars_of(draft).len();
    if cursor < n {
        cursor
    } else {
        n
    }
}

/// Insert `text` at the char `cursor`. Returns the cursor after the insert.
pub fn insert_at(draft: &mut String, cursor: usize, text: &str) -> (r: usize)
    requires
        old(draft)@.len() + text@.len() <= usize::MAX,
    ensures
        final(draft)@ == old(draft)@.take(clamp(old(draft)@, cursor as int)) + text@
            + old(draft)@.skip(clamp(old(draft)@, cursor as int)),
        r == clamp(old(draft)@, cursor as int) + text@.len(),
{
    let s = chars_of(draft.as_str());
    let t = chars_of(text);
    let k = if cursor < s.len() {
        cursor
    } else {
        s.len()
    };
    let mut out: Vec<char> = Vec::new();
    let mut i: usize = 0;
    while i < k
        invariant
            k <= s.len(),
            i <= k,
            out@ == s@.take(i as int),
        decreases k - i,
    {
        out.push(s[i]);
        assert(s@.take(i as int).push(s@[i as int]) =~= s@.take(i + 1));
        i = i + 1;
    }
    let mut j: usize = 0;
    while j < t.len()
        invariant
            k <= s.len(),
            j <= t.len(),
            out@ == s@.take(k as int) + t@.take(j as int),
        decreases t.len() - j,
    {
        out.push(t[j]);
        assert(s@.take(k as int) + t@.take(j as int).push(t@[j as int]) =~= s@.take(k as int)
            + t@.take(j + 1));
        j = j + 1;
    }
    assert(t@.take(t.len() as int) =~= t@);
    let mut m: usize = k;
    while m < s.len()
        invariant
            k <= m <= s.len(),
            out@ == s@.take(k as int) + t@ + s@.subrange(k as int, m as int),
        decreases s.len() - m,
    {
        out.push(s[m]);
        assert(s@.take(k as int) + t@ + s@.subrange(k as int, m as int).push(s@[m as int])
            =~= s@.take(k as int) + t@ + s@.subrange(k as int, m + 1));
        m = m + 1;
    }
    assert(s@.subrange(k as int, s.len() as int) =~= s@.skip(k as int));
    *draft = string_of(&out);
    k + t.len()
}

/// `s` without the char at `i`.
fn remove_char(s: &Vec<char>, i: usize) -> (r: Vec<char>)
    requires
        i < s.len(),
    ensures
        r@ == s@.take(i as int) + s@.skip(i + 1),
{
    let mut out: Vec<char> = Vec::new();
    let mut m: usize = 0;
    while m < s.len()
        invariant
            i < s.len(),
            m <= s.len(),
            out@ == (if m <= i {
                s@.take(m as int)
            } else {
                s@.take(i as int) + s@.subrange(i + 1, m as int)
            }),
        decreases s.len() - m,
    {
        if m != i {
            let ghost before = out@;
            out.push(s[m]);
            if m < i {
                assert(before.push(s@[m as int]) =~= s@.take(m + 1));
            } else {
                assert(before.push(s@[m as int]) =~= s@.take(i as int) + s@.subrange(
                    i + 1,
                    m + 1,
                ));
            }
        } else {
            assert(s@.take(i as int) =~= s@.take(i as int) + s@.subrange(i + 1, i + 1));
        }
        m = m + 1;
    }
    assert(s@.subrange(i + 1, s.len() as int) =~= s@.skip(i + 1));
    out
}

/// Delete the char immediately before `cursor`. Returns the new cursor.
pub fn delete_back(draft: &mut String, cursor: usize) -> (r: usize)
    ensures
        clamp(old(draft)@, cursor as int) == 0 ==> final(draft)@ == old(draft)@ && r == 0,
        clamp(old(draft)@, cursor as int) > 0 ==> {
            let k = clamp(old(draft)@, cursor as int);
            &&& final(draft)@ == old(draft)@.take(k - 1) + old(draft)@.skip(k)
            &&& r == k - 1
        },
{
    let s = chars_of(draft.as_str());
    let k = if cursor < s.len() {
        cursor
    } else {
        s.len()
    };
    if k == 0 {
        return 0;
    }
    let out = remove_char(&s, k - 1);
    *draft = string_of(&out);
    k - 1
}

/// Move one char left. Stays at 0.
pub fn move_left(draft: &str, cursor: usize) -> (r: usize)
    ensures
        r == (if clamp(draft@, cursor as int) > 0 {
            clamp(draft@, cursor as int) - 1
        } else {
            0
        }),
{
    let k = clamp_cursor(draft, cursor);
    if k > 0 {
        k - 1
    } else {
        0
    }
}

/// Move one char right. Stays at the end.
pub fn move_right(draft: &str, cursor: usize) -> (r: usize)
    ensures
        r == clamp(draft@, clamp(draft@, cursor as int) + 1),
{
    let k = clamp_cursor(draft, cursor);
    let n = chars_of(draft).len();
    if k < n {
        k + 1
    } else {
        n
    }
}

/// Jump to the start of the draft.
pub fn move_home(_draft: &str, _cursor: usize) -> (r: usize)
    ensures
        r == 0,
{
    0
}

/// Jump to the end of the draft (char count).
pub fn move_end(draft: &str, _cursor: usize) -> (r: usize)
    ensures
        r == draft@.len(),
{
    chars_of(draft).len()
}

/// Delete the char at `cursor`. Cursor stays; no-op at the end.
pub fn delete_forward(draft: &mut String, cursor: usize) -> (r: usize)
    ensures
        r == clamp(old(draft)@, cursor as int),
        r == old(draft)@.len() ==> final(draft)@ == old(draft)@,
        r < old(draft)@.len() ==> final(draft)@ == old(draft)@.take(r as int) + old(draft)@.skip(
            r + 1,
        ),
{
    let s = chars_of(draft.as_str());
    let k = if cursor < s.len() {
        cursor
    } else {
        s.len()
    };
    if k == s.len() {
        return k;
    }
    let out = remove_char(&s, k);
    *draft = string_of(&out);
    k
}

/// Skip whitespace left, then skip non-whitespace. Lands at the word start.
pub fn move_word_left(draft: &str, cursor: usize) -> (r: usize)
    ensures
        r == word_left(draft@, cursor as int),
{
    let s = chars_of(draft);
    let mut k = if cursor < s.len() {
        cursor
    } else {
        s.len()
    };
    let ghost k0 = k as int;
    while k > 0 && is_whitespace(s[k - 1])
        invariant
            k <= s.len(),
            skip_ws_left(s@, k as int) == skip_ws_left(s@, k0),
        decreases k,
    {
        k = k - 1;
    }
    let ghost k1 = k as int;
    while k > 0 && !is_whitespace(s[k - 1])
        invariant
            k <= s.len(),
            skip_word_left(s@, k as int) == skip_word_left(s@, k1),
        decreases k,
    {
        k = k - 1;
    }
    k
}

/// Skip whitespace right, then skip non-whitespace. Lands after the word.
pub fn move_word_right(draft: &str, cursor: usize) -> (r: usize)
    ensures
        r == word_right(draft@, cursor as int),
{
    let s = chars_of(draft);
    let mut k = if cursor < s.len() {
        cursor
    } else {
        s.len()
    };
    let ghost k0 = k as int;
    while k < s.len() && is_whitespace(s[k])
        invariant
            k <= s.len(),
            skip_ws_right(s@, k as int) == skip_ws_right(s@, k0),
        decreases s.len() - k,
    {
        k = k + 1;
    }
    let ghost k1 = k as int;
    while k < s.len() && !is_whitespace(s[k])
        invariant
            k <= s.len(),
            skip_word_right(s@, k as int) == skip_word_right(s@, k1),
        decreases s.len() - k,
    {
        k = k + 1;
    }
    k
}

/// Inserting one char and deleting back from the returned cursor restores
/// the draft and the (clamped) cursor.
pub proof fn law_delete_back_undoes_insert(s: Seq<char>, cursor: int, c: char)
    requires
        cursor >= 0,
    ensures
        ({
            let k = clamp(s, cursor);
            let t = s.take(k) + seq![c] + s.skip(k);
            let r = k + 1;
            &&& clamp(t, r) == r
            &&& t.take(r - 1) + t.skip(r) == s
        }),
{
    let k = clamp(s, cursor);
    let t = s.take(k) + seq![c] + s.skip(k);
    assert(t.take(k) + t.skip(k + 1) =~= s);
}

/// Moving right then left returns to a cursor that was inside the draft.
pub proof fn law_move_right_then_left(s: Seq<char>, cursor: int)
    requires
        0 <= cursor < s.len(),
    ensures
        ({
            let r = clamp(s, clamp(s, cursor) + 1);
            (if clamp(s, r) > 0 {
                clamp(s, r) - 1
            } else {
                0
            }) == cursor
        }),
{
}

} // verus!
