//! Laws of the VT grid: how `feed` treats input split across calls.

use vstd::prelude::*;
use crate::text::{is_control, join_s, lemma_trail_ws_bounds, trail_ws, trim_end_s};
use crate::frame_model::{
    display_view, drop_trailing_empty, row_view, rows_view, wf_view,
    csi_final, csi_params_start, csi_view, esc_end, esc_view, feed_from, feed_view,
    lemma_esc_end, lemma_scan_inters, lemma_scan_params, lemma_st_end, put_char_view,
    scan_inters, scan_params, st_end, FrameView, ESC,
};

verus! {

// ---------------------------------------------------------------------------
// Parsing looks only forward: shifting the input by a prefix shifts results.
// ---------------------------------------------------------------------------

proof fn lemma_shift_scan_params(pre: Seq<char>, t: Seq<char>, i: int)
    requires
        0 <= i <= t.len(),
    ensures
        scan_params(pre + t, pre.len() + i) == pre.len() + scan_params(t, i),
    decreases t.len() - i,
{
    let s = pre + t;
    if i < t.len() {
        assert(s[pre.len() + i] == t[i]);
        lemma_shift_scan_params(pre, t, i + 1);
    }
}

proof fn lemma_shift_scan_inters(pre: Seq<char>, t: Seq<char>, i: int)
    requires
        0 <= i <= t.len(),
    ensures
        scan_inters(pre + t, pre.len() + i) == pre.len() + scan_inters(t, i),
    decreases t.len() - i,
{
    let s = pre + t;
    if i < t.len() {
        assert(s[pre.len() + i] == t[i]);
        lemma_shift_scan_inters(pre, t, i + 1);
    }
}

proof fn lemma_shift_st_end(pre: Seq<char>, t: Seq<char>, i: int)
    requires
        0 <= i,
    ensures
        st_end(pre + t, pre.len() + i) == (match st_end(t, i) {
            None => None,
            Some(e) => Some(pre.len() + e),
        }),
    decreases t.len() - i,
{
    let s = pre + t;
    if i < t.len() {
        assert(s[pre.len() + i] == t[i]);
        if i + 1 < t.len() {
            assert(s[pre.len() + i + 1] == t[i + 1]);
        }
        lemma_shift_st_end(pre, t, i + 1);
    }
}

proof fn lemma_shift_csi_final(pre: Seq<char>, t: Seq<char>, q: int)
    requires
        0 <= q,
        q + 1 < t.len(),
    ensures
        csi_params_start(pre + t, pre.len() + q) == pre.len() + csi_params_start(t, q),
        csi_final(pre + t, pre.len() + q) == pre.len() + csi_final(t, q),
{
    let s = pre + t;
    if q + 2 < t.len() {
        assert(s[pre.len() + q + 2] == t[q + 2]);
    }
    let a = csi_params_start(t, q);
    lemma_shift_scan_params(pre, t, a);
    lemma_scan_params(t, a);
    lemma_shift_scan_inters(pre, t, scan_params(t, a));
}

proof fn lemma_shift_esc_end(pre: Seq<char>, t: Seq<char>, q: int)
    requires
        0 <= q < t.len(),
    ensures
        esc_end(pre + t, pre.len() + q) == (match esc_end(t, q) {
            None => None,
            Some(e) => Some(pre.len() + e),
        }),
{
    let s = pre + t;
    if q + 1 < t.len() {
        assert(s[pre.len() + q + 1] == t[q + 1]);
        lemma_shift_csi_final(pre, t, q);
        lemma_shift_st_end(pre, t, q + 2);
    }
}

proof fn lemma_shift_esc_view(u: FrameView, pre: Seq<char>, t: Seq<char>, q: int)
    requires
        0 <= q < t.len(),
        esc_end(t, q) is Some,
    ensures
        esc_view(u, pre + t, pre.len() + q) == esc_view(u, t, q),
{
    let s = pre + t;
    let k = pre.len();
    assert(s[k + q + 1] == t[q + 1]);
    if t[q + 1] == '[' {
        lemma_shift_csi_final(pre, t, q);
        let f = csi_final(t, q);
        let a = csi_params_start(t, q);
        lemma_scan_params(t, a);
        lemma_scan_inters(t, scan_params(t, a));
        assert(s[k + f] == t[f]);
        assert(s.subrange(k + a, k + f) =~= t.subrange(a, f));
        if q + 2 < t.len() {
            assert(s[k + q + 2] == t[q + 2]);
        }
        assert(csi_view(u, s, k + q) == csi_view(u, t, q));
    }
}

/// Feeding from an offset into `pre + t` is feeding `t` from the shifted offset.
proof fn lemma_shift_feed(u: FrameView, pre: Seq<char>, t: Seq<char>, q: int)
    requires
        0 <= q,
    ensures
        feed_from(u, pre + t, pre.len() + q) == feed_from(u, t, q),
    decreases t.len() - q,
{
    let s = pre + t;
    let k = pre.len();
    if q < t.len() {
        assert(s[k + q] == t[q]);
        if t[q] == ESC {
            lemma_shift_esc_end(pre, t, q);
            match esc_end(t, q) {
                None => {
                    assert(s.skip(k + q) =~= t.skip(q));
                },
                Some(e) => {
                    lemma_esc_end(t, q);
                    lemma_shift_esc_view(u, pre, t, q);
                    lemma_shift_feed(esc_view(u, t, q), pre, t, e);
                },
            }
        } else {
            lemma_shift_feed(put_char_view(u, t[q]), pre, t, q + 1);
        }
    }
}

// ---------------------------------------------------------------------------
// A complete sequence stays complete, and means the same, when input follows.
// ---------------------------------------------------------------------------

proof fn lemma_extend_scan_params(x: Seq<char>, y: Seq<char>, i: int)
    requires
        0 <= i <= x.len(),
        scan_params(x, i) < x.len(),
    ensures
        scan_params(x + y, i) == scan_params(x, i),
    decreases x.len() - i,
{
    if is_param_char_at(x, i) {
        assert((x + y)[i] == x[i]);
        lemma_extend_scan_params(x, y, i + 1);
    } else {
        assert((x + y)[i] == x[i]);
    }
}

spec fn is_param_char_at(x: Seq<char>, i: int) -> bool {
    0 <= i < x.len() && crate::frame_model::is_param_char(x[i])
}

proof fn lemma_extend_scan_inters(x: Seq<char>, y: Seq<char>, i: int)
    requires
        0 <= i <= x.len(),
        scan_inters(x, i) < x.len(),
    ensures
        scan_inters(x + y, i) == scan_inters(x, i),
    decreases x.len() - i,
{
    assert((x + y)[i] == x[i]);
    if i < x.len() && crate::frame_model::is_inter(x[i]) {
        lemma_extend_scan_inters(x, y, i + 1);
    }
}

proof fn lemma_extend_st_end(x: Seq<char>, y: Seq<char>, i: int)
    requires
        0 <= i,
        st_end(x, i) is Some,
    ensures
        st_end(x + y, i) == st_end(x, i),
    decreases x.len() - i,
{
    assert((x + y)[i] == x[i]);
    if x[i] == ESC {
        assert((x + y)[i + 1] == x[i + 1]);
    } else if x[i] != crate::frame_model::BEL {
        lemma_extend_st_end(x, y, i + 1);
    }
}

proof fn lemma_extend_esc(u: FrameView, x: Seq<char>, y: Seq<char>, p: int)
    requires
        0 <= p < x.len(),
        esc_end(x, p) is Some,
    ensures
        esc_end(x + y, p) == esc_end(x, p),
        esc_view(u, x + y, p) == esc_view(u, x, p),
{
    let s = x + y;
    assert(s[p + 1] == x[p + 1]);
    let c = x[p + 1];
    if c == '[' {
        if p + 2 < x.len() {
            assert(s[p + 2] == x[p + 2]);
        }
        let a = csi_params_start(x, p);
        lemma_scan_params(x, a);
        lemma_scan_inters(x, scan_params(x, a));
        assert(csi_params_start(s, p) == a);
        lemma_extend_scan_params(x, y, a);
        lemma_extend_scan_inters(x, y, scan_params(x, a));
        let f = csi_final(x, p);
        assert(s[f] == x[f]);
        assert(s.subrange(a, f) =~= x.subrange(a, f));
        assert(csi_view(u, s, p) == csi_view(u, x, p));
    } else if crate::frame_model::is_string_intro(c) {
        lemma_extend_st_end(x, y, p + 2);
    }
}

// ---------------------------------------------------------------------------
// Chunking
// ---------------------------------------------------------------------------

/// Feeding `x` and then `y` from a state with nothing held equals feeding
/// `x + y`: the first pass stops at the end of `x` (holding an incomplete
/// sequence) and the second pass resumes from what was held.
proof fn lemma_feed_split(u: FrameView, x: Seq<char>, y: Seq<char>, p: int)
    requires
        0 <= p <= x.len(),
        u.pending.len() == 0,
    ensures
        feed_from(u, x + y, p) == ({
            let w = feed_from(u, x, p);
            feed_from(FrameView { pending: seq![], ..w }, w.pending + y, 0)
        }),
    decreases x.len() - p,
{
    let s = x + y;
    if p == x.len() {
        assert(u.pending =~= seq![]);
        assert(u == (FrameView { pending: seq![], ..u }));
        assert(seq![] + y =~= y);
        lemma_shift_feed(u, x, y, 0);
    } else {
        assert(s[p] == x[p]);
        if x[p] == ESC {
            match esc_end(x, p) {
                None => {
                    assert(u.pending =~= seq![]);
        assert(u == (FrameView { pending: seq![], ..u }));
                    let t = x.skip(p) + y;
                    assert(s =~= x.take(p) + t);
                    lemma_shift_feed(u, x.take(p), t, 0);
                },
                Some(e) => {
                    lemma_esc_end(x, p);
                    lemma_extend_esc(u, x, y, p);
                    lemma_feed_split(esc_view(u, x, p), x, y, e);
                },
            }
        } else {
            lemma_feed_split(put_char_view(u, x[p]), x, y, p + 1);
        }
    }
}

/// Feeding `a` and then `b` gives the same frame as feeding `a + b` in one
/// call: an escape sequence split across calls is held, never printed.
pub proof fn law_feed_chunking(v: FrameView, a: Seq<char>, b: Seq<char>)
    ensures
        feed_view(feed_view(v, a), b) == feed_view(v, a + b),
{
    let v0 = FrameView { pending: seq![], ..v };
    if a.len() == 0 && v.pending.len() == 0 {
        assert(a + b =~= b);
    } else {
        let x = v.pending + a;
        assert(v.pending + (a + b) =~= x + b);
        lemma_feed_split(v0, x, b, 0);
        let w = feed_from(v0, x, 0);
        if b.len() == 0 && w.pending.len() == 0 {
            assert(w.pending + b =~= seq![]);
            assert(w == (FrameView { pending: seq![], ..w }));
        }
    }
}

// ---------------------------------------------------------------------------
// Display
// ---------------------------------------------------------------------------

/// A char that may appear in displayed text: a newline or a non-control char.
pub open spec fn display_char(c: char) -> bool {
    c == '\n' || !is_control(c)
}

pub open spec fn clean(s: Seq<char>) -> bool {
    forall|i: int| 0 <= i < s.len() ==> display_char(#[trigger] s[i])
}

proof fn lemma_join_clean(v: Seq<Seq<char>>, sep: Seq<char>)
    requires
        clean(sep),
        forall|k: int| 0 <= k < v.len() ==> clean(#[trigger] v[k]),
    ensures
        clean(join_s(v, sep)),
    decreases v.len(),
{
    if v.len() > 1 {
        let init = v.drop_last();
        assert forall|k: int| 0 <= k < init.len() implies clean(#[trigger] init[k]) by {
            assert(init[k] == v[k]);
        }
        lemma_join_clean(init, sep);
        let j = join_s(init, sep);
        let l = v.last();
        assert(clean(l));
        assert forall|i: int| 0 <= i < (j + sep + l).len() implies display_char(
            #[trigger] (j + sep + l)[i],
        ) by {
            if i < j.len() {
                assert((j + sep + l)[i] == j[i]);
            } else if i < j.len() + sep.len() {
                assert((j + sep + l)[i] == sep[i - j.len()]);
            } else {
                assert((j + sep + l)[i] == l[i - j.len() - sep.len()]);
            }
        }
    } else if v.len() == 1 {
        assert(clean(v[0]));
    }
}

proof fn lemma_drop_trailing_prefix(ls: Seq<Seq<char>>)
    ensures
        drop_trailing_empty(ls).len() <= ls.len(),
        forall|k: int|
            0 <= k < drop_trailing_empty(ls).len() ==> #[trigger] drop_trailing_empty(ls)[k]
                == ls[k],
    decreases ls.len(),
{
    if ls.len() > 0 && ls.last().len() == 0 {
        lemma_drop_trailing_prefix(ls.drop_last());
    }
}

/// What `display` shows holds no control char other than the newline
/// between rows: escape sequences never reach the screen text.
pub proof fn law_display_is_clean(v: FrameView)
    requires
        wf_view(v),
    ensures
        clean(display_view(v)),
{
    let trimmed = rows_view(v).map_values(|l: Seq<char>| trim_end_s(l));
    assert forall|k: int| 0 <= k < trimmed.len() implies clean(#[trigger] trimmed[k]) by {
        let row = row_view(v, k);
        crate::frame::lemma_row_range(v, k);
        lemma_trail_ws_bounds(row, row.len() as int);
        assert(trimmed[k] == row.take(trail_ws(row, row.len() as int)));
        assert forall|i: int| 0 <= i < trimmed[k].len() implies display_char(
            #[trigger] trimmed[k][i],
        ) by {
            assert(trimmed[k][i] == v.cells[k * v.cols + i]);
        }
    }
    let kept = drop_trailing_empty(trimmed);
    lemma_drop_trailing_prefix(trimmed);
    assert forall|k: int| 0 <= k < kept.len() implies clean(#[trigger] kept[k]) by {
        assert(kept[k] == trimmed[k]);
    }
    assert(clean(seq!['\n']));
    lemma_join_clean(kept, seq!['\n']);
}

/// Column `m` is a tab stop.
pub open spec fn tab_stop(m: int) -> bool {
    m % 8 == 0
}

/// A TAB moves the cursor to the next tab stop (every 8 columns) strictly
/// right of it, clamped to the last column: no stop is skipped, the new
/// column is a stop unless clamped, and nothing but the column changes.
pub proof fn law_tab_moves_to_next_stop(v: FrameView)
    requires
        wf_view(v),
    ensures
        ({
            let w = put_char_view(v, '\t');
            &&& w == (FrameView { col: w.col, ..v })
            &&& 0 <= w.col <= v.cols - 1
            &&& (tab_stop(w.col) || w.col == v.cols - 1)
            &&& w.col <= v.col + 8
            &&& (v.col < v.cols - 1 ==> v.col < w.col)
            &&& forall|m: int| v.col < m < w.col ==> !#[trigger] tab_stop(m)
        }),
{
    let w = put_char_view(v, '\t');
    let t = (v.col / 8 + 1) * 8;
    assert(v.col < t <= v.col + 8 && t % 8 == 0) by (nonlinear_arith)
        requires
            t == (v.col / 8 + 1) * 8,
            v.col >= 0,
    {}
    assert forall|m: int| v.col < m < t implies !#[trigger] tab_stop(m) by {
        assert(v.col < m < t && m % 8 == 0 ==> false) by (nonlinear_arith)
            requires
                t == (v.col / 8 + 1) * 8,
                v.col >= 0,
        {}
    }
}

} // verus!
