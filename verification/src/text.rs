//! Character-level text model: the views of strings are `Seq<char>`, and every
//! string helper of the library is stated and proved over those sequences.

use vstd::prelude::*;

verus! {

// ---------------------------------------------------------------------------
// Character classes
// ---------------------------------------------------------------------------

/// Unicode `White_Space` (what `char::is_whitespace` tests).
pub open spec fn is_ws(c: char) -> bool {
    ||| ('\u{9}' <= c && c <= '\u{d}')
    ||| c == ' '
    ||| c == '\u{85}'
    ||| c == '\u{a0}'
    ||| c == '\u{1680}'
    ||| ('\u{2000}' <= c && c <= '\u{200a}')
    ||| c == '\u{2028}'
    ||| c == '\u{2029}'
    ||| c == '\u{202f}'
    ||| c == '\u{205f}'
    ||| c == '\u{3000}'
}

/// Unicode general category `Cc` (what `char::is_control` tests).
pub open spec fn is_control(c: char) -> bool {
    c <= '\u{1f}' || ('\u{7f}' <= c && c <= '\u{9f}')
}

pub open spec fn is_ascii_upper(c: char) -> bool {
    'A' <= c && c <= 'Z'
}

pub open spec fn is_ascii_lower(c: char) -> bool {
    'a' <= c && c <= 'z'
}

pub open spec fn is_ascii_alpha(c: char) -> bool {
    is_ascii_upper(c) || is_ascii_lower(c)
}

pub open spec fn is_ascii_digit(c: char) -> bool {
    '0' <= c && c <= '9'
}

pub open spec fn is_ascii_alnum(c: char) -> bool {
    is_ascii_alpha(c) || is_ascii_digit(c)
}

/// ASCII lowercase of one char; other chars are unchanged.
pub open spec fn lower(c: char) -> char {
    if is_ascii_upper(c) {
        ((c as u32) + 32) as char
    } else {
        c
    }
}

/// ASCII lowercase of a whole sequence.
pub open spec fn lower_s(s: Seq<char>) -> Seq<char> {
    s.map_values(|c: char| lower(c))
}

pub fn is_whitespace(c: char) -> (r: bool)
    ensures
        r == is_ws(c),
{
    ('\u{9}' <= c && c <= '\u{d}') || c == ' ' || c == '\u{85}' || c == '\u{a0}' || c
        == '\u{1680}' || ('\u{2000}' <= c && c <= '\u{200a}') || c == '\u{2028}' || c
        == '\u{2029}' || c == '\u{202f}' || c == '\u{205f}' || c == '\u{3000}'
}

pub fn is_control_char(c: char) -> (r: bool)
    ensures
        r == is_control(c),
{
    c <= '\u{1f}' || ('\u{7f}' <= c && c <= '\u{9f}')
}

pub fn lower_char(c: char) -> (r: char)
    ensures
        r == lower(c),
{
    if 'A' <= c && c <= 'Z' {
        ((c as u8) + 32) as char
    } else {
        c
    }
}

// ---------------------------------------------------------------------------
// Conversions between `str`/`String` and `Vec<char>`
// ---------------------------------------------------------------------------

/// `String::push` (std): appends one char.
#[verifier::external_body]
pub fn push_char(s: &mut String, c: char)
    ensures
        final(s)@ == old(s)@.push(c),
{
    s.push(c);
}

/// The chars of a string slice, in order.
pub fn chars_of(s: &str) -> (v: Vec<char>)
    ensures
        v@ == s@,
{
    let mut v: Vec<char> = Vec::new();
    for c in it: s.chars()
        invariant
            v@ == it.seq().take(it.index() as int),
            it.seq() == s@,
    {
        v.push(c);
    }
    v
}

/// A `String` holding exactly `v`.
pub fn string_of(v: &Vec<char>) -> (s: String)
    ensures
        s@ == v@,
{
    let mut s = String::new();
    let mut i: usize = 0;
    while i < v.len()
        invariant
            i <= v.len(),
            s@ == v@.take(i as int),
        decreases v.len() - i,
    {
        push_char(&mut s, v[i]);
        assert(v@.take(i as int).push(v@[i as int]) =~= v@.take(i + 1));
        i = i + 1;
    }
    assert(v@.take(v.len() as int) =~= v@);
    s
}

/// Copy of `v[a..b]`.
pub fn sub_vec(v: &Vec<char>, a: usize, b: usize) -> (r: Vec<char>)
    requires
        a <= b <= v.len(),
    ensures
        r@ == v@.subrange(a as int, b as int),
{
    let mut r: Vec<char> = Vec::new();
    let mut i = a;
    while i < b
        invariant
            a <= i <= b <= v.len(),
            r@ == v@.subrange(a as int, i as int),
        decreases b - i,
    {
        r.push(v[i]);
        assert(v@.subrange(a as int, i as int).push(v@[i as int]) =~= v@.subrange(
            a as int,
            i + 1,
        ));
        i = i + 1;
    }
    r
}

/// `a` followed by `b`, as a new vector.
pub fn concat_vec(a: &Vec<char>, b: &Vec<char>) -> (r: Vec<char>)
    ensures
        r@ == a@ + b@,
{
    let mut r: Vec<char> = Vec::new();
    let mut i: usize = 0;
    while i < a.len()
        invariant
            i <= a.len(),
            r@ == a@.take(i as int),
        decreases a.len() - i,
    {
        r.push(a[i]);
        assert(a@.take(i as int).push(a@[i as int]) =~= a@.take(i + 1));
        i = i + 1;
    }
    assert(a@.take(a.len() as int) =~= a@);
    let mut j: usize = 0;
    while j < b.len()
        invariant
            j <= b.len(),
            r@ == a@ + b@.take(j as int),
        decreases b.len() - j,
    {
        r.push(b[j]);
        assert(a@ + b@.take(j as int).push(b@[j as int]) =~= a@ + b@.take(j + 1));
        j = j + 1;
    }
    assert(b@.take(b.len() as int) =~= b@);
    r
}

/// Appends `b` onto `a` in place.
pub fn append_vec(a: &mut Vec<char>, b: &Vec<char>)
    ensures
        final(a)@ == old(a)@ + b@,
{
    let ghost a0 = a@;
    let mut j: usize = 0;
    while j < b.len()
        invariant
            j <= b.len(),
            a@ == a0 + b@.take(j as int),
        decreases b.len() - j,
    {
        a.push(b[j]);
        assert(a0 + b@.take(j as int).push(b@[j as int]) =~= a0 + b@.take(j + 1));
        j = j + 1;
    }
    assert(b@.take(b.len() as int) =~= b@);
}

/// Appends the chars of `s` onto `a` in place.
pub fn append_str(a: &mut Vec<char>, s: &str)
    ensures
        final(a)@ == old(a)@ + s@,
{
    let v = chars_of(s);
    append_vec(a, &v);
}

/// Element-wise equality of two char vectors.
pub fn eq_chars(a: &Vec<char>, b: &Vec<char>) -> (r: bool)
    ensures
        r == (a@ == b@),
{
    if a.len() != b.len() {
        return false;
    }
    let mut i: usize = 0;
    while i < a.len()
        invariant
            a.len() == b.len(),
            i <= a.len(),
            forall|k: int| 0 <= k < i ==> a@[k] == b@[k],
        decreases a.len() - i,
    {
        if a[i] != b[i] {
            return false;
        }
        i = i + 1;
    }
    assert(a@ =~= b@);
    true
}

/// Equality of a char vector with the chars of a string slice.
pub fn eq_str(a: &Vec<char>, s: &str) -> (r: bool)
    ensures
        r == (a@ == s@),
{
    let b = chars_of(s);
    eq_chars(a, &b)
}

// ---------------------------------------------------------------------------
// Prefixes, suffixes and substrings
// ---------------------------------------------------------------------------

pub open spec fn starts_with_s(s: Seq<char>, p: Seq<char>) -> bool {
    p.len() <= s.len() && s.take(p.len() as int) == p
}

pub open spec fn ends_with_s(s: Seq<char>, p: Seq<char>) -> bool {
    p.len() <= s.len() && s.skip(s.len() - p.len()) == p
}

/// `n` occurs in `s` starting at `i`.
pub open spec fn occurs_at(s: Seq<char>, n: Seq<char>, i: int) -> bool {
    0 <= i && i + n.len() <= s.len() && s.subrange(i, i + n.len()) == n
}

pub open spec fn contains_s(s: Seq<char>, n: Seq<char>) -> bool {
    exists|i: int| occurs_at(s, n, i)
}

pub fn matches_at(s: &Vec<char>, n: &Vec<char>, i: usize) -> (r: bool)
    ensures
        r == occurs_at(s@, n@, i as int),
{
    if i > s.len() || n.len() > s.len() - i {
        return false;
    }
    let mut k: usize = 0;
    while k < n.len()
        invariant
            i + n.len() <= s.len(),
            k <= n.len(),
            forall|j: int| 0 <= j < k ==> s@[i + j] == n@[j],
        decreases n.len() - k,
    {
        if s[i + k] != n[k] {
            assert(s@.subrange(i as int, i + n.len())[k as int] != n@[k as int]);
            return false;
        }
        k = k + 1;
    }
    assert(s@.subrange(i as int, i + n.len()) =~= n@);
    true
}

pub fn starts_with(s: &Vec<char>, p: &Vec<char>) -> (r: bool)
    ensures
        r == starts_with_s(s@, p@),
{
    let r = matches_at(s, p, 0);
    assert(s@.subrange(0, p@.len() as int) =~= s@.take(p@.len() as int));
    r
}

pub fn starts_with_str(s: &Vec<char>, p: &str) -> (r: bool)
    ensures
        r == starts_with_s(s@, p@),
{
    let pv = chars_of(p);
    starts_with(s, &pv)
}

pub fn ends_with(s: &Vec<char>, p: &Vec<char>) -> (r: bool)
    ensures
        r == ends_with_s(s@, p@),
{
    if p.len() > s.len() {
        return false;
    }
    let r = matches_at(s, p, s.len() - p.len());
    assert(s@.subrange(s.len() - p.len(), s.len() as int) =~= s@.skip(s.len() - p.len()));
    r
}

/// Index of the first occurrence of `n` in `s`, if any.
pub fn find_sub(s: &Vec<char>, n: &Vec<char>) -> (r: Option<usize>)
    ensures
        r is None <==> !contains_s(s@, n@),
        r matches Some(i) ==> occurs_at(s@, n@, i as int) && forall|j: int|
            0 <= j < i ==> !occurs_at(s@, n@, j),
{
    let mut i: usize = 0;
    loop
        invariant
            i <= s.len(),
            forall|j: int| 0 <= j < i ==> !occurs_at(s@, n@, j),
        decreases s.len() - i,
    {
        if matches_at(s, n, i) {
            return Some(i);
        }
        if i == s.len() {
            assert forall|j: int| !occurs_at(s@, n@, j) by {
                if occurs_at(s@, n@, j) {
                    assert(j <= i);
                }
            }
            return None;
        }
        i = i + 1;
    }
}

/// Where `n` first occurs in `s`, when it does.
#[verifier::opaque]
pub open spec fn first_occ(s: Seq<char>, n: Seq<char>) -> Option<int> {
    if contains_s(s, n) {
        Some(choose|i: int| occurs_at(s, n, i) && forall|j: int| 0 <= j < i ==> !occurs_at(s, n, j))
    } else {
        None
    }
}

pub proof fn lemma_first_occ(s: Seq<char>, n: Seq<char>, i: int)
    requires
        occurs_at(s, n, i),
        forall|j: int| 0 <= j < i ==> !occurs_at(s, n, j),
    ensures
        first_occ(s, n) == Some(i),
{
    reveal(first_occ);
    assert(contains_s(s, n));
    let k = choose|k: int| occurs_at(s, n, k) && forall|j: int| 0 <= j < k ==> !occurs_at(s, n, j);
    assert(occurs_at(s, n, k) && forall|j: int| 0 <= j < k ==> !occurs_at(s, n, j));
    if k < i {
        assert(!occurs_at(s, n, k));
    }
    if i < k {
        assert(!occurs_at(s, n, i));
    }
}

/// The index of the first occurrence of `n` in `s`.
pub fn find_first(s: &Vec<char>, n: &Vec<char>) -> (r: Option<usize>)
    ensures
        match r {
            Some(i) => first_occ(s@, n@) == Some(i as int) && occurs_at(s@, n@, i as int),
            None => first_occ(s@, n@) is None,
        },
{
    let r = find_sub(s, n);
    proof {
        if let Some(i) = r {
            lemma_first_occ(s@, n@, i as int);
        } else {
            reveal(first_occ);
        }
    }
    r
}

pub fn contains(s: &Vec<char>, n: &Vec<char>) -> (r: bool)
    ensures
        r == contains_s(s@, n@),
{
    find_sub(s, n).is_some()
}

pub fn contains_str(s: &Vec<char>, n: &str) -> (r: bool)
    ensures
        r == contains_s(s@, n@),
{
    let nv = chars_of(n);
    contains(s, &nv)
}

/// The char `c` occurs in `s`.
pub fn has_char(s: &Vec<char>, c: char) -> (r: bool)
    ensures
        r == s@.contains(c),
{
    let mut i: usize = 0;
    while i < s.len()
        invariant
            i <= s.len(),
            forall|k: int| 0 <= k < i ==> s@[k] != c,
        decreases s.len() - i,
    {
        if s[i] == c {
            return true;
        }
        i = i + 1;
    }
    false
}

// ---------------------------------------------------------------------------
// Case folding
// ---------------------------------------------------------------------------

pub fn lower_vec(s: &Vec<char>) -> (r: Vec<char>)
    ensures
        r@ == lower_s(s@),
{
    let mut r: Vec<char> = Vec::new();
    let mut i: usize = 0;
    while i < s.len()
        invariant
            i <= s.len(),
            r@ == lower_s(s@.take(i as int)),
        decreases s.len() - i,
    {
        r.push(lower_char(s[i]));
        assert(lower_s(s@.take(i as int)).push(lower(s@[i as int])) =~= lower_s(
            s@.take(i + 1),
        ));
        i = i + 1;
    }
    assert(s@.take(s.len() as int) =~= s@);
    r
}

// ---------------------------------------------------------------------------
// Trimming (Unicode whitespace, like `str::trim`)
// ---------------------------------------------------------------------------

/// First index at or after `i` that is not whitespace (or the length).
pub open spec fn lead_ws(s: Seq<char>, i: int) -> int
    decreases s.len() - i,
{
    if 0 <= i < s.len() && is_ws(s[i]) {
        lead_ws(s, i + 1)
    } else {
        i
    }
}

/// End of `s.take(j)` after dropping trailing whitespace.
pub open spec fn trail_ws(s: Seq<char>, j: int) -> int
    decreases j,
{
    if 0 < j <= s.len() && is_ws(s[j - 1]) {
        trail_ws(s, j - 1)
    } else {
        j
    }
}

pub open spec fn trim_start_s(s: Seq<char>) -> Seq<char> {
    s.skip(lead_ws(s, 0))
}

pub open spec fn trim_end_s(s: Seq<char>) -> Seq<char> {
    s.take(trail_ws(s, s.len() as int))
}

pub open spec fn trim_s(s: Seq<char>) -> Seq<char> {
    trim_end_s(trim_start_s(s))
}

pub proof fn lemma_trail_ws_bounds(s: Seq<char>, j: int)
    requires
        0 <= j <= s.len(),
    ensures
        0 <= trail_ws(s, j) <= j,
        forall|k: int| trail_ws(s, j) <= k < j ==> is_ws(s[k]),
        trail_ws(s, j) > 0 ==> !is_ws(s[trail_ws(s, j) - 1]),
    decreases j,
{
    if 0 < j && is_ws(s[j - 1]) {
        lemma_trail_ws_bounds(s, j - 1);
    }
}

pub fn skip_ws_from(s: &Vec<char>, i: usize) -> (r: usize)
    requires
        i <= s.len(),
    ensures
        r == lead_ws(s@, i as int),
        i <= r <= s.len(),
{
    let mut k = i;
    while k < s.len() && is_whitespace(s[k])
        invariant
            i <= k <= s.len(),
            lead_ws(s@, k as int) == lead_ws(s@, i as int),
        decreases s.len() - k,
    {
        k = k + 1;
    }
    k
}

pub fn trail_ws_to(s: &Vec<char>, j: usize) -> (r: usize)
    requires
        j <= s.len(),
    ensures
        r == trail_ws(s@, j as int),
        r <= j,
{
    let mut k = j;
    while k > 0 && is_whitespace(s[k - 1])
        invariant
            k <= j <= s.len(),
            trail_ws(s@, k as int) == trail_ws(s@, j as int),
        decreases k,
    {
        k = k - 1;
    }
    k
}

pub fn trim_start_vec(s: &Vec<char>) -> (r: Vec<char>)
    ensures
        r@ == trim_start_s(s@),
{
    let a = skip_ws_from(s, 0);
    sub_vec(s, a, s.len())
}

pub fn trim_end_vec(s: &Vec<char>) -> (r: Vec<char>)
    ensures
        r@ == trim_end_s(s@),
{
    let b = trail_ws_to(s, s.len());
    sub_vec(s, 0, b)
}

pub fn trim_vec(s: &Vec<char>) -> (r: Vec<char>)
    ensures
        r@ == trim_s(s@),
{
    let t = trim_start_vec(s);
    trim_end_vec(&t)
}

// ---------------------------------------------------------------------------
// Splitting
// ---------------------------------------------------------------------------

/// Views of a vector of char vectors.
pub open spec fn views(v: Seq<Vec<char>>) -> Seq<Seq<char>> {
    v.map_values(|x: Vec<char>| x@)
}

pub proof fn lemma_views_push(v: Seq<Vec<char>>, x: Vec<char>)
    ensures
        views(v.push(x)) == views(v).push(x@),
{
    assert(views(v.push(x)) =~= views(v).push(x@));
}

/// Drops one trailing `'\r'`.
pub open spec fn strip_cr(l: Seq<char>) -> Seq<char> {
    if l.len() > 0 && l.last() == '\r' {
        l.drop_last()
    } else {
        l
    }
}

/// `str::lines` from position `i`, with the current line starting at `start`.
pub open spec fn lines_acc(s: Seq<char>, start: int, i: int) -> Seq<Seq<char>>
    decreases s.len() - i,
{
    if i >= s.len() {
        if start < s.len() {
            seq![s.subrange(start, s.len() as int)]
        } else {
            seq![]
        }
    } else if s[i] == '\n' {
        seq![strip_cr(s.subrange(start, i))] + lines_acc(s, i + 1, i + 1)
    } else {
        lines_acc(s, start, i + 1)
    }
}

/// The lines of `s` as `str::lines` yields them.
pub open spec fn lines_s(s: Seq<char>) -> Seq<Seq<char>> {
    lines_acc(s, 0, 0)
}

pub fn strip_cr_vec(l: Vec<char>) -> (r: Vec<char>)
    ensures
        r@ == strip_cr(l@),
{
    let mut l = l;
    if l.len() > 0 && l[l.len() - 1] == '\r' {
        l.pop();
    }
    l
}

pub fn lines_of(s: &Vec<char>) -> (r: Vec<Vec<char>>)
    ensures
        views(r@) == lines_s(s@),
{
    let mut out: Vec<Vec<char>> = Vec::new();
    let mut start: usize = 0;
    let mut i: usize = 0;
    while i < s.len()
        invariant
            start <= i <= s.len(),
            views(out@) + lines_acc(s@, start as int, i as int) == lines_s(s@),
        decreases s.len() - i,
    {
        if s[i] == '\n' {
            let line = sub_vec(s, start, i);
            let line = strip_cr_vec(line);
            proof {
                lemma_views_push(out@, line);
                assert(views(out@.push(line)) + lines_acc(s@, i + 1, i + 1) =~= views(out@)
                    + lines_acc(s@, start as int, i as int));
            }
            out.push(line);
            start = i + 1;
        }
        i = i + 1;
    }
    if start < s.len() {
        let line = sub_vec(s, start, s.len());
        proof {
            lemma_views_push(out@, line);
            assert(views(out@.push(line)) =~= views(out@) + lines_acc(
                s@,
                start as int,
                i as int,
            ));
        }
        out.push(line);
    } else {
        assert(views(out@) =~= views(out@) + lines_acc(s@, start as int, i as int));
    }
    out
}

/// `str::split(c)` from position `i`, the current piece starting at `start`.
pub open spec fn split_acc(s: Seq<char>, c: char, start: int, i: int) -> Seq<Seq<char>>
    decreases s.len() - i,
{
    if i >= s.len() {
        seq![s.subrange(start, s.len() as int)]
    } else if s[i] == c {
        seq![s.subrange(start, i)] + split_acc(s, c, i + 1, i + 1)
    } else {
        split_acc(s, c, start, i + 1)
    }
}

pub open spec fn split_s(s: Seq<char>, c: char) -> Seq<Seq<char>> {
    split_acc(s, c, 0, 0)
}

proof fn lemma_split_acc_nonempty(s: Seq<char>, c: char, start: int, i: int)
    ensures
        split_acc(s, c, start, i).len() >= 1,
    decreases s.len() - i,
{
    if i < s.len() {
        if s[i] == c {
            lemma_split_acc_nonempty(s, c, i + 1, i + 1);
        } else {
            lemma_split_acc_nonempty(s, c, start, i + 1);
        }
    }
}

/// Splitting always yields at least one piece.
pub proof fn lemma_split_nonempty(s: Seq<char>, c: char)
    ensures
        split_s(s, c).len() >= 1,
{
    lemma_split_acc_nonempty(s, c, 0, 0);
}

pub fn split_char(s: &Vec<char>, c: char) -> (r: Vec<Vec<char>>)
    ensures
        views(r@) == split_s(s@, c),
{
    let mut out: Vec<Vec<char>> = Vec::new();
    let mut start: usize = 0;
    let mut i: usize = 0;
    while i < s.len()
        invariant
            start <= i <= s.len(),
            views(out@) + split_acc(s@, c, start as int, i as int) == split_s(s@, c),
        decreases s.len() - i,
    {
        if s[i] == c {
            let piece = sub_vec(s, start, i);
            proof {
                lemma_views_push(out@, piece);
                assert(views(out@.push(piece)) + split_acc(s@, c, i + 1, i + 1) =~= views(out@)
                    + split_acc(s@, c, start as int, i as int));
            }
            out.push(piece);
            start = i + 1;
        }
        i = i + 1;
    }
    let piece = sub_vec(s, start, s.len());
    proof {
        lemma_views_push(out@, piece);
        assert(views(out@.push(piece)) =~= views(out@) + split_acc(
            s@,
            c,
            start as int,
            i as int,
        ));
    }
    out.push(piece);
    out
}

/// `str::split_whitespace` from position `i`; `inw` tells whether a word
/// started at `start` is open.
pub open spec fn words_acc(s: Seq<char>, start: int, i: int, inw: bool) -> Seq<Seq<char>>
    decreases s.len() - i,
{
    if i >= s.len() {
        if inw {
            seq![s.subrange(start, s.len() as int)]
        } else {
            seq![]
        }
    } else if is_ws(s[i]) {
        if inw {
            seq![s.subrange(start, i)] + words_acc(s, i + 1, i + 1, false)
        } else {
            words_acc(s, i + 1, i + 1, false)
        }
    } else if inw {
        words_acc(s, start, i + 1, true)
    } else {
        words_acc(s, i, i + 1, true)
    }
}

pub open spec fn words_s(s: Seq<char>) -> Seq<Seq<char>> {
    words_acc(s, 0, 0, false)
}

pub fn split_whitespace(s: &Vec<char>) -> (r: Vec<Vec<char>>)
    ensures
        views(r@) == words_s(s@),
{
    let mut out: Vec<Vec<char>> = Vec::new();
    let mut start: usize = 0;
    let mut inw = false;
    let mut i: usize = 0;
    while i < s.len()
        invariant
            start <= i <= s.len(),
            views(out@) + words_acc(s@, start as int, i as int, inw) == words_s(s@),
        decreases s.len() - i,
    {
        if is_whitespace(s[i]) {
            if inw {
                let w = sub_vec(s, start, i);
                proof {
                    lemma_views_push(out@, w);
                    assert(views(out@.push(w)) + words_acc(s@, i + 1, i + 1, false) =~= views(
                        out@,
                    ) + words_acc(s@, start as int, i as int, inw));
                }
                out.push(w);
            }
            inw = false;
            start = i + 1;
        } else if !inw {
            inw = true;
            start = i;
        }
        i = i + 1;
    }
    if inw {
        let w = sub_vec(s, start, s.len());
        proof {
            lemma_views_push(out@, w);
            assert(views(out@.push(w)) =~= views(out@) + words_acc(
                s@,
                start as int,
                i as int,
                inw,
            ));
        }
        out.push(w);
    } else {
        assert(views(out@) =~= views(out@) + words_acc(s@, start as int, i as int, inw));
    }
    out
}

/// `v` joined with `sep` between pieces.
pub open spec fn join_s(v: Seq<Seq<char>>, sep: Seq<char>) -> Seq<char>
    decreases v.len(),
{
    if v.len() == 0 {
        seq![]
    } else if v.len() == 1 {
        v[0]
    } else {
        join_s(v.drop_last(), sep) + sep + v.last()
    }
}

pub fn join_vecs(v: &Vec<Vec<char>>, sep: &Vec<char>) -> (r: Vec<char>)
    ensures
        r@ == join_s(views(v@), sep@),
{
    let mut r: Vec<char> = Vec::new();
    let mut i: usize = 0;
    while i < v.len()
        invariant
            i <= v.len(),
            r@ == join_s(views(v@.take(i as int)), sep@),
        decreases v.len() - i,
    {
        proof {
            assert(views(v@.take(i + 1)).drop_last() =~= views(v@.take(i as int)));
            assert(views(v@.take(i + 1)).last() == v@[i as int]@);
        }
        if i > 0 {
            append_vec(&mut r, sep);
        }
        append_vec(&mut r, &v[i]);
        proof {
            if i == 0 {
                assert(r@ =~= v@[0]@);
            }
        }
        i = i + 1;
    }
    assert(v@.take(v.len() as int) =~= v@);
    r
}

/// The pieces of `v` one after another.
pub open spec fn concat_all(v: Seq<Seq<char>>) -> Seq<char>
    decreases v.len(),
{
    if v.len() == 0 {
        seq![]
    } else {
        concat_all(v.drop_last()) + v.last()
    }
}


/// The char sequences of a sequence of strings.
pub open spec fn strs(v: Seq<String>) -> Seq<Seq<char>> {
    v.map_values(|x: String| x@)
}

/// `v` joined with `sep`, as a new `String`.
pub fn join_strings(v: &Vec<String>, sep: &str) -> (r: String)
    ensures
        r@ == join_s(strs(v@), sep@),
{
    let mut out: Vec<char> = Vec::new();
    let mut i: usize = 0;
    while i < v.len()
        invariant
            i <= v.len(),
            out@ == join_s(strs(v@.take(i as int)), sep@),
        decreases v.len() - i,
    {
        proof {
            assert(strs(v@.take(i + 1)).drop_last() =~= strs(v@.take(i as int)));
            assert(strs(v@.take(i + 1)).last() == v@[i as int]@);
        }
        if i > 0 {
            append_str(&mut out, sep);
        }
        append_str(&mut out, v[i].as_str());
        proof {
            if i == 0 {
                assert(out@ =~= v@[0]@);
            }
        }
        i = i + 1;
    }
    assert(v@.take(v.len() as int) =~= v@);
    string_of(&out)
}

// ---------------------------------------------------------------------------
// Decimal numerals
// ---------------------------------------------------------------------------

pub open spec fn digit_char(d: nat) -> char {
    (('0' as u32) + d) as char
}

/// Decimal representation of `n`, without leading zeros ("0" for zero).
pub open spec fn dec(n: nat) -> Seq<char>
    decreases n,
{
    if n < 10 {
        seq![digit_char(n)]
    } else {
        dec(n / 10).push(digit_char(n % 10))
    }
}

proof fn lemma_dec_len(n: nat)
    ensures
        dec(n).len() >= 1,
        n < 10 ==> dec(n).len() == 1,
        n >= 10 ==> dec(n).len() >= 2,
    decreases n,
{
    if n >= 10 {
        lemma_dec_len(n / 10);
    }
}

/// Distinct numbers have distinct numerals.
pub proof fn lemma_dec_injective(a: nat, b: nat)
    requires
        dec(a) == dec(b),
    ensures
        a == b,
    decreases a,
{
    lemma_dec_len(a);
    lemma_dec_len(b);
    if a < 10 && b < 10 {
        assert(dec(a)[0] == digit_char(a));
        assert(dec(b)[0] == digit_char(b));
        assert(digit_char(a) as u32 == 48 + a);
        assert(digit_char(b) as u32 == 48 + b);
    } else if a >= 10 && b >= 10 {
        assert(dec(a).last() == digit_char(a % 10));
        assert(dec(b).last() == digit_char(b % 10));
        assert(digit_char(a % 10) as u32 == 48 + a % 10);
        assert(digit_char(b % 10) as u32 == 48 + b % 10);
        assert(dec(a).drop_last() =~= dec(a / 10));
        assert(dec(b).drop_last() =~= dec(b / 10));
        lemma_dec_injective(a / 10, b / 10);
    }
}

/// Decimal numeral of `n` as chars.
pub fn dec_vec(n: u64) -> (r: Vec<char>)
    ensures
        r@ == dec(n as nat),
    decreases n,
{
    if n < 10 {
        let mut r: Vec<char> = Vec::new();
        r.push(((n as u8) + 48) as char);
        assert(r@ =~= seq![digit_char(n as nat)]);
        r
    } else {
        let mut r = dec_vec(n / 10);
        r.push((((n % 10) as u8) + 48) as char);
        r
    }
}

/// Appends the decimal numeral of `n`.
pub fn push_dec(a: &mut Vec<char>, n: u64)
    ensures
        final(a)@ == old(a)@ + dec(n as nat),
{
    let d = dec_vec(n);
    append_vec(a, &d);
}

/// Decimal string of `n`.
pub fn dec_string(n: u64) -> (s: String)
    ensures
        s@ == dec(n as nat),
{
    let d = dec_vec(n);
    string_of(&d)
}

/// Signed decimal representation of `v`.
pub open spec fn idec(v: int) -> Seq<char> {
    if v < 0 {
        seq!['-'] + dec((-v) as nat)
    } else {
        dec(v as nat)
    }
}

/// Appends the signed decimal numeral of `v`.
pub fn push_idec(a: &mut Vec<char>, v: i64)
    ensures
        final(a)@ == old(a)@ + idec(v as int),
{
    if v < 0 {
        let m: u64 = ((-(v + 1)) as u64) + 1;
        let ghost before = a@;
        a.push('-');
        push_dec(a, m);
        assert(a@ =~= before + idec(v as int));
    } else {
        push_dec(a, v as u64);
    }
}

} // verus!
