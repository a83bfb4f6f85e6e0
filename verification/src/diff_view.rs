//! Right-rail diff workbench: porcelain rows, unified-diff hunks and sort.

use vstd::prelude::*;
use crate::text::{
    append_str, chars_of, has_char, lines_of, lines_s, matches_at, occurs_at, push_dec,
    split_char, split_s, split_whitespace, starts_with_s, starts_with_str, string_of, sub_vec,
    trim_s, trim_vec, views, words_s, dec,
};

verus! {

/// How the Diff tab orders paths.
#[derive(Debug, Clone, Copy, PartialEq, Eq, Structural)]
pub enum DiffSort {
    LastTurn,
    FileName,
}

impl DiffSort {
    pub fn label(self) -> (r: &'static str)
        ensures
            r@ == (match self {
                DiffSort::LastTurn => "Last turn"@,
                DiffSort::FileName => "File name"@,
            }),
    {
        match self {
            DiffSort::LastTurn => "Last turn",
            DiffSort::FileName => "File name",
        }
    }

    pub fn toggle(self) -> (r: Self)
        ensures
            r == (match self {
                DiffSort::LastTurn => DiffSort::FileName,
                DiffSort::FileName => DiffSort::LastTurn,
            }),
    {
        match self {
            DiffSort::LastTurn => DiffSort::FileName,
            DiffSort::FileName => DiffSort::LastTurn,
        }
    }
}

impl Default for DiffSort {
    fn default() -> (r: Self)
        ensures
            r == DiffSort::LastTurn,
    {
        DiffSort::LastTurn
    }
}

/// One changed path from `git status --porcelain`.
#[derive(Debug, Clone, PartialEq, Eq)]
pub struct DiffRow {
    pub path: String,
    pub status: String,
    pub last_turn: bool,
}

pub struct RowV {
    pub path: Seq<char>,
    pub status: Seq<char>,
    pub last_turn: bool,
}

pub open spec fn row_view(r: DiffRow) -> RowV {
    RowV { path: r.path@, status: r.status@, last_turn: r.last_turn }
}

pub open spec fn row_views(v: Seq<DiffRow>) -> Seq<RowV> {
    v.map_values(|r: DiffRow| row_view(r))
}

// ---------------------------------------------------------------------------
// Porcelain
// ---------------------------------------------------------------------------

/// Bytes of `c` in UTF-8.
pub open spec fn utf8_width(c: char) -> int {
    if (c as u32) < 0x80 {
        1
    } else if (c as u32) < 0x800 {
        2
    } else if (c as u32) < 0x10000 {
        3
    } else {
        4
    }
}

/// Length of `s` in UTF-8 bytes.
pub open spec fn utf8_len(s: Seq<char>) -> int
    decreases s.len(),
{
    if s.len() == 0 {
        0
    } else {
        utf8_len(s.drop_last()) + utf8_width(s.last())
    }
}

pub open spec fn status_char(c: char) -> bool {
    c == ' ' || c == 'M' || c == 'A' || c == 'D' || c == 'R' || c == 'C' || c == 'U' || c == '?'
        || c == '!'
}

/// `s` without its first `n` chars (empty when shorter).
pub open spec fn skip_n(s: Seq<char>, n: int) -> Seq<char> {
    if n <= s.len() {
        s.skip(n)
    } else {
        Seq::empty()
    }
}

/// The first `n` chars of `s` (all of it when shorter).
pub open spec fn take_n(s: Seq<char>, n: int) -> Seq<char> {
    if n <= s.len() {
        s.take(n)
    } else {
        s
    }
}

/// Start of the last occurrence of `p` in `s` at or before `i`, or -1.
pub open spec fn last_occ_from(s: Seq<char>, p: Seq<char>, i: int) -> int
    decreases i + 1,
{
    if i < 0 {
        -1
    } else if occurs_at(s, p, i) {
        i
    } else {
        last_occ_from(s, p, i - 1)
    }
}

pub open spec fn last_occ(s: Seq<char>, p: Seq<char>) -> int {
    last_occ_from(s, p, s.len() - p.len())
}

/// `s` without leading copies of `c`.
pub open spec fn drop_lead(s: Seq<char>, c: char) -> Seq<char>
    decreases s.len(),
{
    if s.len() > 0 && s[0] == c {
        drop_lead(s.skip(1), c)
    } else {
        s
    }
}

/// `s` without trailing copies of `c`.
pub open spec fn drop_trail(s: Seq<char>, c: char) -> Seq<char>
    decreases s.len(),
{
    if s.len() > 0 && s.last() == c {
        drop_trail(s.drop_last(), c)
    } else {
        s
    }
}

/// `str::trim_matches(c)`.
pub open spec fn trim_char(s: Seq<char>, c: char) -> Seq<char> {
    drop_trail(drop_lead(s, c), c)
}

/// The row a porcelain line gives, if any.
pub open spec fn porcelain_line(line: Seq<char>) -> Option<RowV> {
    if utf8_len(line) < 4 {
        None
    } else {
        let raw = take_n(line, 2);
        if !(forall|i: int| 0 <= i < raw.len() ==> status_char(#[trigger] raw[i])) {
            None
        } else {
            let status = trim_s(raw);
            let rest = trim_s(skip_n(line, 3));
            if status.len() == 0 || rest.len() == 0 {
                None
            } else {
                let k = last_occ(rest, " -> "@);
                let dest = if k >= 0 {
                    rest.skip(k + 4)
                } else {
                    rest
                };
                let path = trim_char(trim_s(dest), '"');
                if path.len() == 0 {
                    None
                } else {
                    Some(RowV { path, status, last_turn: false })
                }
            }
        }
    }
}

pub open spec fn porcelain_rows(lines: Seq<Seq<char>>, n: int) -> Seq<RowV>
    decreases n,
{
    if n <= 0 || n > lines.len() {
        Seq::empty()
    } else {
        match porcelain_line(lines[n - 1]) {
            Some(r) => porcelain_rows(lines, n - 1).push(r),
            None => porcelain_rows(lines, n - 1),
        }
    }
}

pub open spec fn porcelain_spec(text: Seq<char>) -> Seq<RowV> {
    porcelain_rows(lines_s(text), lines_s(text).len() as int)
}

fn width_of(c: char) -> (r: usize)
    ensures
        r == utf8_width(c),
{
    if (c as u32) < 0x80 {
        1
    } else if (c as u32) < 0x800 {
        2
    } else if (c as u32) < 0x10000 {
        3
    } else {
        4
    }
}

/// A prefix is no longer in UTF-8 bytes than the whole.
pub proof fn lemma_utf8_len_mono(s: Seq<char>, i: int)
    requires
        0 <= i <= s.len(),
    ensures
        utf8_len(s.take(i)) <= utf8_len(s),
    decreases s.len() - i,
{
    if i < s.len() {
        lemma_utf8_len_mono(s, i + 1);
        assert(s.take(i + 1).drop_last() =~= s.take(i));
    } else {
        assert(s.take(i) =~= s);
    }
}

/// Whether `line` is shorter than four UTF-8 bytes.
fn short_line(line: &Vec<char>) -> (r: bool)
    ensures
        r == (utf8_len(line@) < 4),
{
    let mut b: usize = 0;
    let mut i: usize = 0;
    while i < line.len() && b < 4
        invariant
            i <= line.len(),
            b == utf8_len(line@.take(i as int)),
            b < 8,
        decreases line.len() - i,
    {
        assert(line@.take(i + 1).drop_last() =~= line@.take(i as int));
        b = b + width_of(line[i]);
        i = i + 1;
    }
    proof {
        lemma_utf8_len_mono(line@, i as int);
        if i == line.len() {
            assert(line@.take(i as int) =~= line@);
        }
    }
    b < 4
}

proof fn lemma_last_occ(s: Seq<char>, p: Seq<char>, i: int)
    ensures
        last_occ_from(s, p, i) >= 0 ==> occurs_at(s, p, last_occ_from(s, p, i)),
        last_occ_from(s, p, i) >= -1,
    decreases i + 1,
{
    if i >= 0 && !occurs_at(s, p, i) {
        lemma_last_occ(s, p, i - 1);
    }
}

fn last_occurrence(s: &Vec<char>, p: &Vec<char>) -> (r: Option<usize>)
    ensures
        match r {
            Some(k) => last_occ(s@, p@) == k as int && occurs_at(s@, p@, k as int),
            None => last_occ(s@, p@) == -1,
        },
{
    proof {
        lemma_last_occ(s@, p@, s@.len() - p@.len());
    }
    if p.len() > s.len() {
        return None;
    }
    let mut i: usize = s.len() - p.len();
    loop
        invariant
            i <= s.len() - p.len(),
            p.len() <= s.len(),
            last_occ(s@, p@) == last_occ_from(s@, p@, i as int),
        decreases i,
    {
        if matches_at(s, p, i) {
            return Some(i);
        }
        if i == 0 {
            assert(last_occ_from(s@, p@, -1) == -1);
            return None;
        }
        i = i - 1;
    }
}

fn trim_quotes(s: &Vec<char>) -> (r: Vec<char>)
    ensures
        r@ == trim_char(s@, '"'),
{
    let mut a: usize = 0;
    assert(s@.skip(0) =~= s@);
    while a < s.len() && s[a] == '"'
        invariant
            a <= s.len(),
            drop_lead(s@.skip(a as int), '"') == drop_lead(s@, '"'),
        decreases s.len() - a,
    {
        assert(s@.skip(a as int).skip(1) =~= s@.skip(a + 1));
        a = a + 1;
    }
    let mut b: usize = s.len();
    while b > a && s[b - 1] == '"'
        invariant
            a <= b <= s.len(),
            drop_lead(s@, '"') == s@.skip(a as int),
            drop_trail(s@.subrange(a as int, b as int), '"') == trim_char(s@, '"'),
        decreases b,
    {
        assert(s@.subrange(a as int, b as int).drop_last() =~= s@.subrange(a as int, b - 1));
        b = b - 1;
    }
    proof {
        if a == s.len() {
            assert(s@.skip(a as int) =~= Seq::<char>::empty());
        }
        assert(s@.skip(a as int) =~= s@.subrange(a as int, s.len() as int));
    }
    sub_vec(s, a, b)
}

fn porcelain_row(line: &Vec<char>) -> (r: Option<DiffRow>)
    ensures
        match r {
            Some(row) => porcelain_line(line@) == Some(row_view(row)),
            None => porcelain_line(line@) is None,
        },
{
    if short_line(line) {
        return None;
    }
    let n2 = if line.len() < 2 {
        line.len()
    } else {
        2
    };
    let raw = sub_vec(line, 0, n2);
    assert(raw@ =~= take_n(line@, 2));
    let mut i: usize = 0;
    while i < raw.len()
        invariant
            i <= raw.len(),
            raw@ == take_n(line@, 2),
            utf8_len(line@) >= 4,
            forall|k: int| 0 <= k < i ==> status_char(#[trigger] raw@[k]),
        decreases raw.len() - i,
    {
        let c = raw[i];
        if !(c == ' ' || c == 'M' || c == 'A' || c == 'D' || c == 'R' || c == 'C' || c == 'U' || c
            == '?' || c == '!') {
            assert(!status_char(raw@[i as int]));
            return None;
        }
        i = i + 1;
    }
    let status = trim_vec(&raw);
    let n3 = if line.len() < 3 {
        line.len()
    } else {
        3
    };
    let tail = sub_vec(line, n3, line.len());
    assert(tail@ =~= skip_n(line@, 3));
    let rest = trim_vec(&tail);
    if status.len() == 0 || rest.len() == 0 {
        return None;
    }
    let arrow = chars_of(" -> ");
    let dest = match last_occurrence(&rest, &arrow) {
        Some(k) => {
            proof {
                reveal_strlit(" -> ");
                assert(arrow@.len() == 4);
            }
            sub_vec(&rest, k + 4, rest.len())
        },
        None => sub_vec(&rest, 0, rest.len()),
    };
    assert(dest@ =~= (if last_occ(rest@, " -> "@) >= 0 {
        rest@.skip(last_occ(rest@, " -> "@) + 4)
    } else {
        rest@
    }));
    let td = trim_vec(&dest);
    let path = trim_quotes(&td);
    if path.len() == 0 {
        return None;
    }
    Some(DiffRow { path: string_of(&path), status: string_of(&status), last_turn: false })
}

/// Parse porcelain (`XY path` or `XY old -> new`). Ignores junk lines.
pub fn parse_porcelain(text: &str) -> (rows: Vec<DiffRow>)
    ensures
        row_views(rows@) == porcelain_spec(text@),
{
    let t = chars_of(text);
    let lines = lines_of(&t);
    let mut rows: Vec<DiffRow> = Vec::new();
    let mut i: usize = 0;
    while i < lines.len()
        invariant
            i <= lines.len(),
            views(lines@) == lines_s(text@),
            row_views(rows@) == porcelain_rows(lines_s(text@), i as int),
        decreases lines.len() - i,
    {
        assert(views(lines@)[i as int] == lines@[i as int]@);
        let ghost before = rows@;
        match porcelain_row(&lines[i]) {
            Some(row) => {
                rows.push(row);
                assert(row_views(rows@) =~= row_views(before).push(row_view(row)));
            },
            None => {},
        }
        i = i + 1;
    }
    rows
}

/// Mark rows whose path is in `last_turn` (exact match).
pub fn mark_last_turn(rows: &mut Vec<DiffRow>, last_turn: &[String])
    ensures
        final(rows)@.len() == old(rows)@.len(),
        forall|i: int|
            0 <= i < old(rows)@.len() ==> row_view(#[trigger] final(rows)@[i]) == (RowV {
                last_turn: exists|j: int|
                    0 <= j < last_turn@.len() && last_turn@[j]@ == old(rows)@[i].path@,
                ..row_view(old(rows)@[i])
            }),
{
    let mut i: usize = 0;
    while i < rows.len()
        invariant
            i <= rows.len(),
            rows@.len() == old(rows)@.len(),
            forall|k: int|
                i <= k < rows@.len() ==> #[trigger] rows@[k] == old(rows)@[k],
            forall|k: int|
                0 <= k < i ==> row_view(#[trigger] rows@[k]) == (RowV {
                    last_turn: exists|j: int|
                        0 <= j < last_turn@.len() && last_turn@[j]@ == old(rows)@[k].path@,
                    ..row_view(old(rows)@[k])
                }),
        decreases rows.len() - i,
    {
        let mut found = false;
        let mut j: usize = 0;
        while j < last_turn.len()
            invariant
                j <= last_turn.len(),
                i < rows.len(),
                found == exists|m: int| 0 <= m < j && last_turn@[m]@ == rows@[i as int].path@,
            decreases last_turn.len() - j,
        {
            if last_turn[j] == rows[i].path {
                found = true;
            }
            j = j + 1;
        }
        let mut row = rows.remove(i);
        row.last_turn = found;
        rows.insert(i, row);
        i = i + 1;
    }
}

/// One-line Changes rail title.
pub fn changes_headline(rows: &[DiffRow]) -> (r: String)
    ensures
        r@ == (if rows@.len() == 0 {
            "No working-tree changes"@
        } else if rows@.len() == 1 {
            "1 file changed"@
        } else {
            dec(rows@.len()) + " files changed"@
        }),
{
    if rows.len() == 0 {
        "No working-tree changes".to_owned()
    } else if rows.len() == 1 {
        "1 file changed".to_owned()
    } else {
        let mut v: Vec<char> = Vec::new();
        push_dec(&mut v, rows.len() as u64);
        append_str(&mut v, " files changed");
        string_of(&v)
    }
}

/// Compact status letter for a porcelain `XY` pair.
pub fn status_mark(status: &str) -> (r: &'static str)
    ensures
        r@ == (if status@.contains('A') || status@.contains('?') {
            "A"@
        } else if status@.contains('D') {
            "D"@
        } else if status@.contains('R') {
            "R"@
        } else {
            "M"@
        }),
{
    let s = chars_of(status);
    if has_char(&s, 'A') || has_char(&s, '?') {
        "A"
    } else if has_char(&s, 'D') {
        "D"
    } else if has_char(&s, 'R') {
        "R"
    } else {
        "M"
    }
}

// ---------------------------------------------------------------------------
// Unified diff hunks
// ---------------------------------------------------------------------------

/// Kind of one line inside a unified hunk.
#[derive(Debug, Clone, Copy, PartialEq, Eq, Structural)]
pub enum HunkLineKind {
    Context,
    Add,
    Del,
}

/// One painted line of a unified hunk (includes the leading `+`/`-`/` `).
#[derive(Debug, Clone, PartialEq, Eq)]
pub struct HunkLine {
    pub kind: HunkLineKind,
    pub text: String,
}

/// One `@@` hunk from `git diff`.
#[derive(Debug, Clone, PartialEq, Eq)]
pub struct DiffHunk {
    pub path: String,
    pub header: String,
    pub lines: Vec<HunkLine>,
}

pub struct HunkV {
    pub path: Seq<char>,
    pub header: Seq<char>,
    pub lines: Seq<(HunkLineKind, Seq<char>)>,
}

pub open spec fn line_views(v: Seq<HunkLine>) -> Seq<(HunkLineKind, Seq<char>)> {
    v.map_values(|l: HunkLine| (l.kind, l.text@))
}

pub open spec fn hunk_view(h: DiffHunk) -> HunkV {
    HunkV { path: h.path@, header: h.header@, lines: line_views(h.lines@) }
}

pub open spec fn hunk_views(v: Seq<DiffHunk>) -> Seq<HunkV> {
    v.map_values(|h: DiffHunk| hunk_view(h))
}

/// `str::trim_start_matches(p)` for a non-empty pattern.
pub open spec fn strip_all(s: Seq<char>, p: Seq<char>) -> Seq<char>
    decreases s.len(),
{
    if p.len() > 0 && starts_with_s(s, p) {
        strip_all(s.skip(p.len() as int), p)
    } else {
        s
    }
}

pub open spec fn diff_meta(line: Seq<char>) -> bool {
    ||| starts_with_s(line, "--- "@)
    ||| starts_with_s(line, "index "@)
    ||| starts_with_s(line, "new file"@)
    ||| starts_with_s(line, "deleted file"@)
    ||| starts_with_s(line, "similarity "@)
    ||| starts_with_s(line, "rename "@)
    ||| starts_with_s(line, "old mode"@)
    ||| starts_with_s(line, "new mode"@)
}

/// Path of a `diff --git a/x b/y` header: the second word (else the first),
/// without `b/` and then `a/` prefixes.
pub open spec fn git_header_path(rest: Seq<char>) -> Seq<char> {
    let w = words_s(rest);
    let tok = if w.len() > 1 {
        w[1]
    } else if w.len() > 0 {
        w[0]
    } else {
        Seq::empty()
    };
    strip_all(strip_all(tok, "b/"@), "a/"@)
}

/// Path of a `+++ b/x` line; `None` for `/dev/null`.
pub open spec fn plus_path(rest: Seq<char>) -> Option<Seq<char>> {
    let token = trim_s(split_s(rest, '\t')[0]);
    if token == "/dev/null"@ {
        None
    } else {
        Some(strip_all(strip_all(token, "b/"@), "a/"@))
    }
}

pub open spec fn line_kind(line: Seq<char>) -> HunkLineKind {
    if line.len() > 0 && line[0] == '+' {
        HunkLineKind::Add
    } else if line.len() > 0 && line[0] == '-' {
        HunkLineKind::Del
    } else {
        HunkLineKind::Context
    }
}

/// Parser state: finished hunks, the current file path, the open hunk.
pub struct UState {
    pub hunks: Seq<HunkV>,
    pub path: Seq<char>,
    pub current: Option<HunkV>,
}

pub open spec fn flushed(st: UState) -> Seq<HunkV> {
    match st.current {
        Some(h) => st.hunks.push(h),
        None => st.hunks,
    }
}

pub open spec fn ustep(st: UState, line: Seq<char>) -> UState {
    if starts_with_s(line, "diff --git "@) {
        UState { hunks: flushed(st), path: git_header_path(line.skip(11)), current: None }
    } else if starts_with_s(line, "+++ "@) {
        match plus_path(line.skip(4)) {
            Some(p) => UState { path: p, ..st },
            None => st,
        }
    } else if diff_meta(line) {
        st
    } else if starts_with_s(line, "@@"@) {
        UState {
            hunks: flushed(st),
            current: Some(HunkV { path: st.path, header: line, lines: Seq::empty() }),
            ..st
        }
    } else {
        match st.current {
            Some(h) => UState {
                current: Some(HunkV { lines: h.lines.push((line_kind(line), line)), ..h }),
                ..st
            },
            None => st,
        }
    }
}

pub open spec fn ufold(lines: Seq<Seq<char>>, n: int) -> UState
    decreases n,
{
    if n <= 0 || n > lines.len() {
        UState { hunks: Seq::empty(), path: Seq::empty(), current: None }
    } else {
        ustep(ufold(lines, n - 1), lines[n - 1])
    }
}

/// `parse_unified_diff`: every `@@` hunk with the path of the file it is in.
pub open spec fn unified_spec(text: Seq<char>) -> Seq<HunkV> {
    flushed(ufold(lines_s(text), lines_s(text).len() as int))
}

/// A line that opens a hunk: it begins with `@@`.
pub open spec fn opens_hunk(l: Seq<char>) -> bool {
    l.len() >= 2 && l[0] == '@' && l[1] == '@'
}

/// The hunk-opening lines among the first `n`, in order.
pub open spec fn hunk_heads(lines: Seq<Seq<char>>, n: int) -> Seq<Seq<char>>
    decreases n,
{
    if n <= 0 || n > lines.len() {
        Seq::empty()
    } else if opens_hunk(lines[n - 1]) {
        hunk_heads(lines, n - 1).push(lines[n - 1])
    } else {
        hunk_heads(lines, n - 1)
    }
}

pub open spec fn headers(hs: Seq<HunkV>) -> Seq<Seq<char>> {
    hs.map_values(|h: HunkV| h.header)
}

/// No line inside any hunk opens a hunk.
pub open spec fn bodies_clean(hs: Seq<HunkV>) -> bool {
    forall|i: int, k: int|
        0 <= i < hs.len() && 0 <= k < hs[i].lines.len() ==> !opens_hunk(#[trigger] hs[i].lines[k].1)
}

proof fn lemma_prefix_first(l: Seq<char>, p: Seq<char>)
    requires
        p.len() > 0,
        starts_with_s(l, p),
    ensures
        l[0] == p[0],
{
    assert(l.take(p.len() as int)[0] == l[0]);
}

proof fn lemma_heads_step(st: UState, line: Seq<char>)
    requires
        bodies_clean(flushed(st)),
    ensures
        bodies_clean(flushed(ustep(st, line))),
        headers(flushed(ustep(st, line))) == if opens_hunk(line) {
            headers(flushed(st)).push(line)
        } else {
            headers(flushed(st))
        },
{
    reveal_strlit("diff --git ");
    reveal_strlit("+++ ");
    reveal_strlit("--- ");
    reveal_strlit("index ");
    reveal_strlit("new file");
    reveal_strlit("deleted file");
    reveal_strlit("similarity ");
    reveal_strlit("rename ");
    reveal_strlit("old mode");
    reveal_strlit("new mode");
    reveal_strlit("@@");
    let at = "@@"@;
    if opens_hunk(line) {
        assert(line.take(2) =~= at);
        assert(starts_with_s(line, at));
        if starts_with_s(line, "diff --git "@) { lemma_prefix_first(line, "diff --git "@); }
        if starts_with_s(line, "+++ "@) { lemma_prefix_first(line, "+++ "@); }
        if starts_with_s(line, "--- "@) { lemma_prefix_first(line, "--- "@); }
        if starts_with_s(line, "index "@) { lemma_prefix_first(line, "index "@); }
        if starts_with_s(line, "new file"@) { lemma_prefix_first(line, "new file"@); }
        if starts_with_s(line, "deleted file"@) { lemma_prefix_first(line, "deleted file"@); }
        if starts_with_s(line, "similarity "@) { lemma_prefix_first(line, "similarity "@); }
        if starts_with_s(line, "rename "@) { lemma_prefix_first(line, "rename "@); }
        if starts_with_s(line, "old mode"@) { lemma_prefix_first(line, "old mode"@); }
        if starts_with_s(line, "new mode"@) { lemma_prefix_first(line, "new mode"@); }
    } else {
        if starts_with_s(line, at) {
            assert(line.take(2)[0] == line[0] && line.take(2)[1] == line[1]);
        }
    }
    let n = ustep(st, line);
    let f = flushed(st);
    let g = flushed(n);
    if starts_with_s(line, "diff --git "@) || starts_with_s(line, "+++ "@) || diff_meta(line) {
        assert(headers(g) =~= headers(f));
    } else if starts_with_s(line, at) {
        assert(g =~= f.push(HunkV { path: st.path, header: line, lines: Seq::empty() }));
        assert(headers(g) =~= headers(f).push(line));
    } else {
        match st.current {
            Some(h) => {
                let h2 = HunkV { lines: h.lines.push((line_kind(line), line)), ..h };
                assert(f =~= st.hunks.push(h));
                assert(g =~= st.hunks.push(h2));
                assert(headers(g) =~= headers(f));
                assert forall|i: int, k: int|
                    0 <= i < g.len() && 0 <= k < g[i].lines.len() implies !opens_hunk(#[trigger] g[i].lines[k].1) by {
                    if i < st.hunks.len() {
                        assert(g[i] == f[i]);
                    } else if k < h.lines.len() {
                        assert(g[i].lines[k] == f[i].lines[k]);
                    }
                }
            },
            None => {},
        }
    }
}

proof fn lemma_heads_fold(lines: Seq<Seq<char>>, n: int)
    requires
        0 <= n <= lines.len(),
    ensures
        bodies_clean(flushed(ufold(lines, n))),
        headers(flushed(ufold(lines, n))) == hunk_heads(lines, n),
    decreases n,
{
    if n == 0 {
        assert(headers(flushed(ufold(lines, 0))) =~= Seq::<Seq<char>>::empty());
    } else {
        lemma_heads_fold(lines, n - 1);
        lemma_heads_step(ufold(lines, n - 1), lines[n - 1]);
    }
}

/// Every line that begins with `@@` opens a hunk of its own: the hunks'
/// headers are exactly those lines, in order (so there are as many hunks
/// as such lines), and no hunk carries such a line among its body lines.
pub proof fn law_each_at_line_opens_a_hunk(text: Seq<char>)
    ensures
        headers(unified_spec(text)) == hunk_heads(lines_s(text), lines_s(text).len() as int),
        unified_spec(text).len() == hunk_heads(lines_s(text), lines_s(text).len() as int).len(),
        bodies_clean(unified_spec(text)),
{
    lemma_heads_fold(lines_s(text), lines_s(text).len() as int);
}

fn strip_all_vec(s: Vec<char>, p: &str) -> (r: Vec<char>)
    requires
        p@.len() > 0,
    ensures
        r@ == strip_all(s@, p@),
    decreases s@.len(),
{
    let pv = chars_of(p);
    if crate::text::starts_with(&s, &pv) {
        let rest = sub_vec(&s, pv.len(), s.len());
        assert(rest@ =~= s@.skip(p@.len() as int));
        strip_all_vec(rest, p)
    } else {
        s
    }
}

fn is_diff_meta_chars(line: &Vec<char>) -> (r: bool)
    ensures
        r == diff_meta(line@),
{
    starts_with_str(line, "--- ") || starts_with_str(line, "index ") || starts_with_str(
        line,
        "new file",
    ) || starts_with_str(line, "deleted file") || starts_with_str(line, "similarity ")
        || starts_with_str(line, "rename ") || starts_with_str(line, "old mode")
        || starts_with_str(line, "new mode")
}

fn path_from_git_header_chars(rest: &Vec<char>) -> (r: Vec<char>)
    ensures
        r@ == git_header_path(rest@),
{
    let w = split_whitespace(rest);
    let tok = if w.len() > 1 {
        sub_vec(&w[1], 0, w[1].len())
    } else if w.len() > 0 {
        sub_vec(&w[0], 0, w[0].len())
    } else {
        Vec::new()
    };
    proof {
        reveal_strlit("b/");
        reveal_strlit("a/");
        if w.len() > 1 {
            assert(views(w@)[1] == w@[1]@);
            assert(tok@ =~= w@[1]@);
        } else if w.len() > 0 {
            assert(views(w@)[0] == w@[0]@);
            assert(tok@ =~= w@[0]@);
        } else {
            assert(tok@ =~= Seq::<char>::empty());
        }
    }
    let t1 = strip_all_vec(tok, "b/");
    strip_all_vec(t1, "a/")
}

fn path_from_plus_line_chars(rest: &Vec<char>) -> (r: Option<Vec<char>>)
    ensures
        match r {
            Some(p) => plus_path(rest@) == Some(p@),
            None => plus_path(rest@) is None,
        },
{
    let pieces = split_char(rest, '\t');
    proof {
        crate::text::lemma_split_nonempty(rest@, '\t');
        assert(views(pieces@)[0] == pieces@[0]@);
    }
    let token = trim_vec(&pieces[0]);
    if crate::text::eq_str(&token, "/dev/null") {
        return None;
    }
    proof {
        reveal_strlit("b/");
        reveal_strlit("a/");
    }
    let t1 = strip_all_vec(token, "b/");
    Some(strip_all_vec(t1, "a/"))
}

/// True for the header lines of a unified diff that carry no hunk content.
pub fn is_diff_meta(line: &str) -> (r: bool)
    ensures
        r == diff_meta(line@),
{
    is_diff_meta_chars(&chars_of(line))
}

/// The path named by the rest of a `diff --git` header line.
pub fn path_from_git_header(rest: &str) -> (r: String)
    ensures
        r@ == git_header_path(rest@),
{
    string_of(&path_from_git_header_chars(&chars_of(rest)))
}

/// The path named by the rest of a `+++` line; `None` for `/dev/null`.
pub fn path_from_plus_line(rest: &str) -> (r: Option<String>)
    ensures
        match r {
            Some(p) => plus_path(rest@) == Some(p@),
            None => plus_path(rest@) is None,
        },
{
    match path_from_plus_line_chars(&chars_of(rest)) {
        Some(p) => Some(string_of(&p)),
        None => None,
    }
}

fn kind_of(line: &Vec<char>) -> (k: HunkLineKind)
    ensures
        k == line_kind(line@),
{
    if line.len() > 0 && line[0] == '+' {
        HunkLineKind::Add
    } else if line.len() > 0 && line[0] == '-' {
        HunkLineKind::Del
    } else {
        HunkLineKind::Context
    }
}

struct UnifiedParser {
    hunks: Vec<DiffHunk>,
    path: Vec<char>,
    current: Option<DiffHunk>,
}

impl UnifiedParser {
    spec fn view_state(&self) -> UState {
        UState {
            hunks: hunk_views(self.hunks@),
            path: self.path@,
            current: match self.current {
                Some(h) => Some(hunk_view(h)),
                None => None,
            },
        }
    }

    fn flush(&mut self)
        ensures
            hunk_views(final(self).hunks@) == flushed(old(self).view_state()),
            final(self).path@ == old(self).path@,
            final(self).current is None,
    {
        match self.current.take() {
            Some(h) => {
                let ghost before = self.hunks@;
                self.hunks.push(h);
                assert(hunk_views(self.hunks@) =~= hunk_views(before).push(hunk_view(h)));
            },
            None => {},
        }
    }

    fn feed(&mut self, line: &Vec<char>)
        ensures
            final(self).view_state() == ustep(old(self).view_state(), line@),
    {
        proof {
            reveal_strlit("diff --git ");
            reveal_strlit("+++ ");
        }
        if starts_with_str(line, "diff --git ") {
            self.flush();
            let rest = sub_vec(line, 11, line.len());
            assert(rest@ =~= line@.skip(11));
            self.path = path_from_git_header_chars(&rest);
            return;
        }
        if starts_with_str(line, "+++ ") {
            let rest = sub_vec(line, 4, line.len());
            assert(rest@ =~= line@.skip(4));
            match path_from_plus_line_chars(&rest) {
                Some(p) => {
                    self.path = p;
                },
                None => {},
            }
            return;
        }
        if is_diff_meta_chars(line) {
            return;
        }
        if starts_with_str(line, "@@") {
            self.flush();
            let fresh: Vec<HunkLine> = Vec::new();
            assert(line_views(fresh@) =~= Seq::<(HunkLineKind, Seq<char>)>::empty());
            self.current = Some(
                DiffHunk { path: string_of(&self.path), header: string_of(line), lines: fresh },
            );
            return;
        }
        match self.current.take() {
            Some(h) => {
                let mut h = h;
                let ghost before = h.lines@;
                let k = kind_of(line);
                h.lines.push(HunkLine { kind: k, text: string_of(line) });
                assert(line_views(h.lines@) =~= line_views(before).push((k, line@)));
                self.current = Some(h);
            },
            None => {},
        }
    }
}

/// Parse unified diffs. Files with no `@@` hunks are skipped.
pub fn parse_unified_diff(text: &str) -> (r: Vec<DiffHunk>)
    ensures
        hunk_views(r@) == unified_spec(text@),
{
    let t = chars_of(text);
    let lines = lines_of(&t);
    let mut p = UnifiedParser { hunks: Vec::new(), path: Vec::new(), current: None };
    assert(p.view_state() == ufold(lines_s(text@), 0)) by {
        assert(hunk_views(p.hunks@) =~= Seq::<HunkV>::empty());
        assert(p.path@ =~= Seq::<char>::empty());
    }
    let mut i: usize = 0;
    while i < lines.len()
        invariant
            i <= lines.len(),
            views(lines@) == lines_s(text@),
            p.view_state() == ufold(lines_s(text@), i as int),
        decreases lines.len() - i,
    {
        assert(views(lines@)[i as int] == lines@[i as int]@);
        p.feed(&lines[i]);
        i = i + 1;
    }
    p.flush();
    p.hunks
}

pub open spec fn hunks_at(hs: Seq<HunkV>, path: Seq<char>, n: int) -> Seq<HunkV>
    decreases n,
{
    if n <= 0 || n > hs.len() {
        Seq::empty()
    } else if hs[n - 1].path == path {
        hunks_at(hs, path, n - 1).push(hs[n - 1])
    } else {
        hunks_at(hs, path, n - 1)
    }
}

/// Hunks whose path matches `path` exactly, in order.
pub fn hunks_for_path<'a>(hunks: &'a [DiffHunk], path: &str) -> (r: Vec<&'a DiffHunk>)
    ensures
        r@.map_values(|h: &DiffHunk| hunk_view(*h)) == hunks_at(
            hunk_views(hunks@),
            path@,
            hunks@.len() as int,
        ),
{
    let mut out: Vec<&'a DiffHunk> = Vec::new();
    let want = path.to_owned();
    let mut i: usize = 0;
    while i < hunks.len()
        invariant
            i <= hunks.len(),
            want@ == path@,
            out@.map_values(|h: &DiffHunk| hunk_view(*h)) == hunks_at(
                hunk_views(hunks@),
                path@,
                i as int,
            ),
        decreases hunks.len() - i,
    {
        let ghost before = out@;
        assert(hunk_views(hunks@)[i as int] == hunk_view(hunks@[i as int]));
        if hunks[i].path == want {
            out.push(&hunks[i]);
            assert(out@.map_values(|h: &DiffHunk| hunk_view(*h)) =~= before.map_values(
                |h: &DiffHunk| hunk_view(*h),
            ).push(hunk_view(hunks@[i as int])));
        }
        i = i + 1;
    }
    out
}

// ---------------------------------------------------------------------------
// Sorting
// ---------------------------------------------------------------------------

/// Lexicographic order of char sequences by code point (the byte order of
/// their UTF-8 encodings).
pub open spec fn seq_lt(a: Seq<char>, b: Seq<char>) -> bool
    decreases a.len(),
{
    if a.len() == 0 {
        b.len() > 0
    } else if b.len() == 0 {
        false
    } else if a[0] != b[0] {
        (a[0] as u32) < (b[0] as u32)
    } else {
        seq_lt(a.skip(1), b.skip(1))
    }
}

/// `a` sorts strictly before `b`.
pub open spec fn row_before(a: RowV, b: RowV, sort: DiffSort) -> bool {
    match sort {
        DiffSort::FileName => seq_lt(a.path, b.path),
        DiffSort::LastTurn => (a.last_turn && !b.last_turn) || (a.last_turn == b.last_turn
            && seq_lt(a.path, b.path)),
    }
}

/// First position from `k` whose row sorts strictly after `x`.
pub open spec fn ins_pos(s: Seq<RowV>, x: RowV, sort: DiffSort, k: int) -> int
    decreases s.len() - k,
{
    if k < 0 || k >= s.len() {
        s.len() as int
    } else if row_before(x, s[k], sort) {
        k
    } else {
        ins_pos(s, x, sort, k + 1)
    }
}

/// Stable insertion of `x`: after every row that does not sort after it.
pub open spec fn insert_sorted(s: Seq<RowV>, x: RowV, sort: DiffSort) -> Seq<RowV> {
    let k = ins_pos(s, x, sort, 0);
    s.take(k).push(x) + s.skip(k)
}

/// Stable sort of the first `n` rows.
pub open spec fn isort(rows: Seq<RowV>, sort: DiffSort, n: int) -> Seq<RowV>
    decreases n,
{
    if n <= 0 || n > rows.len() {
        Seq::empty()
    } else {
        insert_sorted(isort(rows, sort, n - 1), rows[n - 1], sort)
    }
}

fn chars_lt(a: &Vec<char>, b: &Vec<char>) -> (r: bool)
    ensures
        r == seq_lt(a@, b@),
{
    let mut i: usize = 0;
    assert(a@.skip(0) =~= a@);
    assert(b@.skip(0) =~= b@);
    loop
        invariant
            i <= a.len(),
            i <= b.len(),
            seq_lt(a@, b@) == seq_lt(a@.skip(i as int), b@.skip(i as int)),
        decreases a.len() - i,
    {
        if i == a.len() {
            return i < b.len();
        }
        if i == b.len() {
            return false;
        }
        assert(a@.skip(i as int)[0] == a@[i as int]);
        assert(b@.skip(i as int)[0] == b@[i as int]);
        if a[i] != b[i] {
            return (a[i] as u32) < (b[i] as u32);
        }
        assert(a@.skip(i as int).skip(1) =~= a@.skip(i + 1));
        assert(b@.skip(i as int).skip(1) =~= b@.skip(i + 1));
        i = i + 1;
    }
}

fn before(a: &DiffRow, b: &DiffRow, sort: DiffSort) -> (r: bool)
    ensures
        r == row_before(row_view(*a), row_view(*b), sort),
{
    let lt = chars_lt(&chars_of(a.path.as_str()), &chars_of(b.path.as_str()));
    match sort {
        DiffSort::FileName => lt,
        DiffSort::LastTurn => (a.last_turn && !b.last_turn) || (a.last_turn == b.last_turn && lt),
    }
}

/// Last turn first (then path), or path only. The sort is stable.
pub fn sort_diffs(rows: Vec<DiffRow>, sort: DiffSort) -> (r: Vec<DiffRow>)
    ensures
        row_views(r@) == isort(row_views(rows@), sort, rows@.len() as int),
{
    let mut out: Vec<DiffRow> = Vec::new();
    let mut i: usize = 0;
    while i < rows.len()
        invariant
            i <= rows.len(),
            row_views(out@) == isort(row_views(rows@), sort, i as int),
        decreases rows.len() - i,
    {
        let x = DiffRow {
            path: rows[i].path.clone(),
            status: rows[i].status.clone(),
            last_turn: rows[i].last_turn,
        };
        assert(row_view(x) == row_views(rows@)[i as int]);
        let ghost s = row_views(out@);
        let mut k: usize = 0;
        while k < out.len() && !before(&x, &out[k], sort)
            invariant
                k <= out.len(),
                s == row_views(out@),
                ins_pos(s, row_view(x), sort, 0) == ins_pos(s, row_view(x), sort, k as int),
            decreases out.len() - k,
        {
            k = k + 1;
        }
        out.insert(k, x);
        assert(row_views(out@) =~= s.take(k as int).push(row_view(x)) + s.skip(k as int));
        i = i + 1;
    }
    out
}

/// No row sorts strictly before an earlier one.
pub open spec fn sorted_by(s: Seq<RowV>, sort: DiffSort) -> bool {
    forall|i: int, j: int| 0 <= i < j < s.len() ==> !row_before(s[j], s[i], sort)
}

proof fn lemma_seq_lt_irrefl(a: Seq<char>)
    ensures
        !seq_lt(a, a),
    decreases a.len(),
{
    if a.len() > 0 {
        lemma_seq_lt_irrefl(a.skip(1));
    }
}

proof fn lemma_seq_lt_trans(a: Seq<char>, b: Seq<char>, c: Seq<char>)
    requires
        seq_lt(a, b),
        seq_lt(b, c),
    ensures
        seq_lt(a, c),
    decreases a.len(),
{
    if a.len() > 0 && b.len() > 0 && c.len() > 0 && a[0] == b[0] && b[0] == c[0] {
        lemma_seq_lt_trans(a.skip(1), b.skip(1), c.skip(1));
    }
}

proof fn lemma_before_trans(a: RowV, b: RowV, c: RowV, sort: DiffSort)
    requires
        row_before(a, b, sort),
        row_before(b, c, sort),
    ensures
        row_before(a, c, sort),
{
    if seq_lt(a.path, b.path) && seq_lt(b.path, c.path) {
        lemma_seq_lt_trans(a.path, b.path, c.path);
    }
}

proof fn lemma_before_irrefl(a: RowV, sort: DiffSort)
    ensures
        !row_before(a, a, sort),
{
    lemma_seq_lt_irrefl(a.path);
}

proof fn lemma_ins_pos(s: Seq<RowV>, x: RowV, sort: DiffSort, k: int)
    requires
        0 <= k <= s.len(),
    ensures
        k <= ins_pos(s, x, sort, k) <= s.len(),
        forall|j: int| k <= j < ins_pos(s, x, sort, k) ==> !row_before(x, #[trigger] s[j], sort),
        ins_pos(s, x, sort, k) < s.len() ==> row_before(x, s[ins_pos(s, x, sort, k)], sort),
    decreases s.len() - k,
{
    if k < s.len() && !row_before(x, s[k], sort) {
        lemma_ins_pos(s, x, sort, k + 1);
    }
}

proof fn lemma_insert_keeps_sorted(s: Seq<RowV>, x: RowV, sort: DiffSort)
    requires
        sorted_by(s, sort),
    ensures
        sorted_by(insert_sorted(s, x, sort), sort),
{
    let k = ins_pos(s, x, sort, 0);
    lemma_ins_pos(s, x, sort, 0);
    let t = insert_sorted(s, x, sort);
    assert(t.len() == s.len() + 1);
    assert forall|i: int, j: int| 0 <= i < j < t.len() implies !row_before(t[j], t[i], sort) by {
        if j < k {
            assert(t[i] == s[i] && t[j] == s[j]);
        } else if j == k {
            assert(t[i] == s[i] && t[j] == x);
        } else if i < k {
            assert(t[i] == s[i] && t[j] == s[j - 1]);
        } else if i == k {
            assert(t[i] == x && t[j] == s[j - 1]);
            if row_before(s[j - 1], x, sort) {
                lemma_before_trans(s[j - 1], x, s[k], sort);
                if k == j - 1 {
                    lemma_before_irrefl(s[k], sort);
                }
            }
        } else {
            assert(t[i] == s[i - 1] && t[j] == s[j - 1]);
        }
    }
}

proof fn lemma_insert_multiset(s: Seq<RowV>, x: RowV, sort: DiffSort)
    ensures
        insert_sorted(s, x, sort).to_multiset() =~= s.to_multiset().insert(x),
{
    broadcast use vstd::seq_lib::group_to_multiset_ensures, vstd::seq_lib::lemma_multiset_commutative;
    let k = ins_pos(s, x, sort, 0);
    lemma_ins_pos(s, x, sort, 0);
    assert(s.take(k) + s.skip(k) =~= s);
    vstd::seq_lib::lemma_multiset_commutative(s.take(k).push(x), s.skip(k));
    vstd::seq_lib::lemma_multiset_commutative(s.take(k), s.skip(k));
}

/// `sort_diffs` returns the rows sorted (no row sorts before an earlier
/// one) and is a permutation of its input.
pub proof fn law_sort_sorted_permutation(rows: Seq<RowV>, sort: DiffSort, n: int)
    requires
        0 <= n <= rows.len(),
    ensures
        sorted_by(isort(rows, sort, n), sort),
        isort(rows, sort, n).to_multiset() =~= rows.take(n).to_multiset(),
    decreases n,
{
    broadcast use vstd::seq_lib::group_to_multiset_ensures;
    if n > 0 {
        law_sort_sorted_permutation(rows, sort, n - 1);
        lemma_insert_keeps_sorted(isort(rows, sort, n - 1), rows[n - 1], sort);
        lemma_insert_multiset(isort(rows, sort, n - 1), rows[n - 1], sort);
        assert(rows.take(n) =~= rows.take(n - 1).push(rows[n - 1]));
    } else {
        assert(rows.take(0) =~= Seq::<RowV>::empty());
    }
}

/// `s` without leading `[` and then trailing `]`.
pub fn trim_brackets(s: &Vec<char>) -> (r: Vec<char>)
    ensures
        r@ == drop_trail(drop_lead(s@, '['), ']'),
{
    let mut a: usize = 0;
    assert(s@.skip(0) =~= s@);
    while a < s.len() && s[a] == '['
        invariant
            a <= s.len(),
            drop_lead(s@.skip(a as int), '[') == drop_lead(s@, '['),
        decreases s.len() - a,
    {
        assert(s@.skip(a as int).skip(1) =~= s@.skip(a + 1));
        a = a + 1;
    }
    let mut b: usize = s.len();
    assert(drop_lead(s@, '[') == s@.skip(a as int));
    assert(s@.skip(a as int) =~= s@.subrange(a as int, b as int));
    while b > a && s[b - 1] == ']'
        invariant
            a <= b <= s.len(),
            drop_trail(s@.subrange(a as int, b as int), ']') == drop_trail(drop_lead(s@, '['), ']'),
        decreases b,
    {
        assert(s@.subrange(a as int, b as int).drop_last() =~= s@.subrange(a as int, b - 1));
        b = b - 1;
    }
    sub_vec(s, a, b)
}

} // verus!
