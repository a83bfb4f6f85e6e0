//! Subsequence fuzzy score for the command palette.

use vstd::prelude::*;
use crate::text::{chars_of, eq_chars, lower_s, lower_vec, starts_with, starts_with_s};

verus! {

pub open spec fn word_break(c: char) -> bool {
    c == ' ' || c == '-' || c == '_' || c == '/' || c == '\\' || c == '.' || c == ':' || c == '+'
}

/// `a * b`, or `u32::MAX` when that overflows.
pub open spec fn sat_mul(a: u32, b: u32) -> u32 {
    if a * b > u32::MAX {
        u32::MAX
    } else {
        (a * b) as u32
    }
}

/// Result of the greedy left-to-right scan: how much of the query matched,
/// the running score and the first matched position.
pub struct Scan {
    pub matched: int,
    pub score: u32,
    pub first: Option<int>,
}

/// Greedy scan of `t` from `i`, having matched `qi` query chars so far with a
/// current run of `run` consecutive matches.
pub open spec fn scan(
    q: Seq<char>,
    t: Seq<char>,
    i: int,
    qi: int,
    score: u32,
    run: u32,
    first: Option<int>,
) -> Scan
    decreases t.len() - i,
{
    if i < 0 || i >= t.len() {
        Scan { matched: qi, score, first }
    } else if 0 <= qi < q.len() && t[i] == q[qi] {
        let first2 = if first is None {
            Some(i)
        } else {
            first
        };
        let run2 = run.saturating_add(1);
        let s1 = score.saturating_add(8);
        let s2 = s1.saturating_add(sat_mul(run2, 6));
        let s3 = if i == 0 || word_break(t[i - 1]) {
            s2.saturating_add(24)
        } else {
            s2
        };
        scan(q, t, i + 1, qi + 1, s3, run2, first2)
    } else {
        scan(q, t, i + 1, qi, score, 0, first)
    }
}

/// The score `fuzzy_score` gives: `None` unless the lowercased query is a
/// greedy subsequence of the lowercased text.
pub open spec fn fuzzy_spec(query: Seq<char>, text: Seq<char>) -> Option<u32> {
    if query.len() == 0 {
        Some(0)
    } else {
        let q = lower_s(query);
        let t = lower_s(text);
        if q.len() > t.len() {
            None
        } else {
            let r = scan(q, t, 0, 0, 0, 0, None);
            if r.matched != q.len() {
                None
            } else {
                let s1 = match r.first {
                    Some(at) => r.score.saturating_add(800u32.saturating_sub(sat_mul(at as u32, 3))),
                    None => r.score,
                };
                let s2 = if starts_with_s(t, q) {
                    s1.saturating_add(400)
                } else {
                    s1
                };
                Some(
                    if t == q {
                        s2.saturating_add(200)
                    } else {
                        s2
                    },
                )
            }
        }
    }
}

/// `a` can be read off `b` left to right, skipping chars of `b`.
pub open spec fn is_subseq(a: Seq<char>, b: Seq<char>) -> bool
    decreases b.len(),
{
    if a.len() == 0 {
        true
    } else if b.len() == 0 {
        false
    } else {
        is_subseq(a, b.drop_first()) || (a[0] == b[0] && is_subseq(a.drop_first(), b.drop_first()))
    }
}

proof fn lemma_subseq_len(a: Seq<char>, b: Seq<char>)
    requires
        is_subseq(a, b),
    ensures
        a.len() <= b.len(),
    decreases b.len(),
{
    if a.len() > 0 && b.len() > 0 {
        if is_subseq(a, b.drop_first()) {
            lemma_subseq_len(a, b.drop_first());
        } else {
            lemma_subseq_len(a.drop_first(), b.drop_first());
        }
    }
}

proof fn lemma_subseq_drop(a: Seq<char>, b: Seq<char>)
    requires
        a.len() > 0,
        is_subseq(a, b),
    ensures
        is_subseq(a.drop_first(), b),
    decreases b.len(),
{
    if b.len() > 0 && a.len() > 1 {
        if is_subseq(a, b.drop_first()) {
            lemma_subseq_drop(a, b.drop_first());
        }
    }
}

/// The greedy scan matches the whole rest of the query exactly when that
/// rest is a subsequence of the rest of the text.
proof fn lemma_scan_subseq(
    q: Seq<char>,
    t: Seq<char>,
    i: int,
    qi: int,
    score: u32,
    run: u32,
    first: Option<int>,
)
    requires
        0 <= i <= t.len(),
        0 <= qi <= q.len(),
    ensures
        (scan(q, t, i, qi, score, run, first).matched == q.len()) == is_subseq(q.skip(qi), t.skip(i)),
    decreases t.len() - i,
{
    let a = q.skip(qi);
    let b = t.skip(i);
    if i == t.len() {
        assert(b.len() == 0);
    } else if qi == q.len() {
        lemma_scan_subseq(q, t, i + 1, qi, score, 0, first);
        assert(a.len() == 0);
        assert(q.skip(qi).len() == 0);
    } else {
        assert(b.drop_first() =~= t.skip(i + 1));
        assert(a.drop_first() =~= q.skip(qi + 1));
        assert(a[0] == q[qi] && b[0] == t[i]);
        if t[i] == q[qi] {
            let first2 = if first is None {
                Some(i)
            } else {
                first
            };
            let run2 = run.saturating_add(1);
            let s1 = score.saturating_add(8);
            let s2 = s1.saturating_add(sat_mul(run2, 6));
            let s3 = if i == 0 || word_break(t[i - 1]) {
                s2.saturating_add(24)
            } else {
                s2
            };
            lemma_scan_subseq(q, t, i + 1, qi + 1, s3, run2, first2);
            if is_subseq(a, b.drop_first()) {
                lemma_subseq_drop(a, b.drop_first());
            }
        } else {
            lemma_scan_subseq(q, t, i + 1, qi, score, 0, first);
        }
    }
}

/// `fuzzy_score` gives `None` exactly when the lowercased query is not a
/// subsequence of the lowercased text (an empty query always scores).
pub proof fn law_fuzzy_none_iff_not_subseq(query: Seq<char>, text: Seq<char>)
    ensures
        (fuzzy_spec(query, text) is None) == !is_subseq(lower_s(query), lower_s(text)),
{
    let q = lower_s(query);
    let t = lower_s(text);
    if query.len() > 0 {
        lemma_scan_subseq(q, t, 0, 0, 0, 0, None);
        assert(q.skip(0) =~= q);
        assert(t.skip(0) =~= t);
        if is_subseq(q, t) {
            lemma_subseq_len(q, t);
        }
    }
}

fn mul_sat(a: u32, b: u32) -> (r: u32)
    ensures
        r == sat_mul(a, b),
{
    match a.checked_mul(b) {
        Some(v) => v,
        None => u32::MAX,
    }
}

pub fn is_word_break(ch: char) -> (r: bool)
    ensures
        r == word_break(ch),
{
    ch == ' ' || ch == '-' || ch == '_' || ch == '/' || ch == '\\' || ch == '.' || ch == ':' || ch
        == '+'
}

/// Score a case-insensitive subsequence match.
///
/// `None` when `query` is not a subsequence of `text`. An empty query scores 0.
/// Prefix, word-start, and consecutive runs score higher than gapped matches.
pub fn fuzzy_score(query: &str, text: &str) -> (r: Option<u32>)
    ensures
        r == fuzzy_spec(query@, text@),
{
    let qraw = chars_of(query);
    if qraw.len() == 0 {
        return Some(0);
    }
    let traw = chars_of(text);
    let q = lower_vec(&qraw);
    let t = lower_vec(&traw);
    if q.len() > t.len() {
        return None;
    }
    let mut qi: usize = 0;
    let mut score: u32 = 0;
    let mut run: u32 = 0;
    let mut first: Option<usize> = None;
    let mut i: usize = 0;
    while i < t.len()
        invariant
            i <= t.len(),
            qi <= i,
            qi <= q.len(),
            first matches Some(f) ==> f < t.len(),
            scan(q@, t@, i as int, qi as int, score, run, match first {
                Some(f) => Some(f as int),
                None => None,
            }) == scan(q@, t@, 0, 0, 0, 0, None),
        decreases t.len() - i,
    {
        if qi < q.len() && t[i] == q[qi] {
            if first.is_none() {
                first = Some(i);
            }
            run = run.saturating_add(1);
            score = score.saturating_add(8);
            score = score.saturating_add(mul_sat(run, 6));
            if i == 0 || is_word_break(t[i - 1]) {
                score = score.saturating_add(24);
            }
            qi = qi + 1;
        } else {
            run = 0;
        }
        i = i + 1;
    }
    if qi != q.len() {
        return None;
    }
    match first {
        Some(at) => {
            #[verifier::truncate]
            let at32 = at as u32;
            score = score.saturating_add(800u32.saturating_sub(mul_sat(at32, 3)));
        },
        None => {},
    }
    if starts_with(&t, &q) {
        score = score.saturating_add(400);
    }
    if eq_chars(&t, &q) {
        score = score.saturating_add(200);
    }
    Some(score)
}

pub open spec fn best_of(query: Seq<char>, parts: Seq<Seq<char>>, n: int) -> Option<u32>
    decreases n,
{
    if n <= 0 || n > parts.len() {
        None
    } else {
        let before = best_of(query, parts, n - 1);
        match fuzzy_spec(query, parts[n - 1]) {
            Some(s) => Some(
                match before {
                    Some(b) => if b >= s {
                        b
                    } else {
                        s
                    },
                    None => s,
                },
            ),
            None => before,
        }
    }
}

pub open spec fn str_views(parts: Seq<&str>) -> Seq<Seq<char>> {
    parts.map_values(|p: &str| p@)
}

proof fn lemma_best_of(query: Seq<char>, parts: Seq<Seq<char>>, n: int)
    requires
        0 <= n <= parts.len(),
    ensures
        (best_of(query, parts, n) is None) <==> forall|i: int|
            0 <= i < n ==> (#[trigger] fuzzy_spec(query, parts[i])) is None,
        best_of(query, parts, n) matches Some(m) ==> exists|i: int|
            0 <= i < n && #[trigger] fuzzy_spec(query, parts[i]) == Some(m),
        best_of(query, parts, n) matches Some(m) ==> forall|j: int|
            0 <= j < n && (#[trigger] fuzzy_spec(query, parts[j])) is Some ==> fuzzy_spec(
                query,
                parts[j],
            )->0 <= m,
    decreases n,
{
    if n > 0 {
        lemma_best_of(query, parts, n - 1);
        let before = best_of(query, parts, n - 1);
        match fuzzy_spec(query, parts[n - 1]) {
            Some(s) => {
                match before {
                    Some(b) => {
                        if b >= s {
                            let i = choose|i: int| 0 <= i < n - 1 && fuzzy_spec(query, parts[i]) == Some(b);
                            assert(fuzzy_spec(query, parts[i]) == Some(b));
                        }
                    },
                    None => {},
                }
            },
            None => {
                if let Some(m) = before {
                    let i = choose|i: int| 0 <= i < n - 1 && fuzzy_spec(query, parts[i]) == Some(m);
                    assert(fuzzy_spec(query, parts[i]) == Some(m));
                }
            },
        }
    }
}

/// The best score is the highest score any part gets: `None` exactly when no
/// part matches, otherwise the score of some part and at least the score of
/// every matching part.
pub proof fn law_best_is_highest_part_score(query: Seq<char>, parts: Seq<Seq<char>>)
    ensures
        (best_of(query, parts, parts.len() as int) is None) <==> forall|i: int|
            0 <= i < parts.len() ==> (#[trigger] fuzzy_spec(query, parts[i])) is None,
        best_of(query, parts, parts.len() as int) matches Some(m) ==> exists|i: int|
            0 <= i < parts.len() && #[trigger] fuzzy_spec(query, parts[i]) == Some(m),
        best_of(query, parts, parts.len() as int) matches Some(m) ==> forall|j: int|
            0 <= j < parts.len() && (#[trigger] fuzzy_spec(query, parts[j])) is Some ==> fuzzy_spec(
                query,
                parts[j],
            )->0 <= m,
{
    lemma_best_of(query, parts, parts.len() as int);
}

/// Best score across several haystacks. `None` when none match.
pub fn fuzzy_best(query: &str, parts: &[&str]) -> (r: Option<u32>)
    ensures
        r == best_of(query@, str_views(parts@), parts@.len() as int),
{
    let mut best: Option<u32> = None;
    let mut i: usize = 0;
    while i < parts.len()
        invariant
            i <= parts.len(),
            best == best_of(query@, str_views(parts@), i as int),
        decreases parts.len() - i,
    {
        match fuzzy_score(query, parts[i]) {
            Some(score) => {
                best = Some(
                    match best {
                        Some(b) => if b >= score {
                            b
                        } else {
                            score
                        },
                        None => score,
                    },
                );
            },
            None => {},
        }
        i = i + 1;
    }
    best
}

} // verus!
