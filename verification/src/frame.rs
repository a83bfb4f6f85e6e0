//! Last-frame VT buffer for an in-app PTY pane.
//!
//! A full-screen TUI redraws with the alternate screen, cursor addressing,
//! erase commands and carriage-return overwrites. This grid keeps one screen
//! of cells so each redraw replaces the last frame. Every operation is proved
//! against the model in `frame_model`.

use vstd::prelude::*;
use crate::frame_model::{ESC, BEL, FrameView, wf_view, blank_cells, fill, min, max, new_view, resized_cells, resize_view, scroll_up_view, scroll_down_view, index_view, reverse_index_view, write_cell_view, clear_all_view, home_view, erase_eol_view, erase_sol_view, erase_line_view, erase_to_end_view, erase_to_start_view, reset_view, save_view, restore_view, TAB_STOP, put_char_view, is_private, is_param_char, is_inter, is_designator_intro, is_string_intro, scan_params, scan_inters, csi_params_start, csi_final, st_end, esc_end, esc_bad, digits_val, all_digits, param_value, parse_params_s, mov_param, cup_param, ed_param, is_alt_screen_code, cursor_up_view, cursor_down_view, cursor_right_view, cursor_left_view, csi_cmd_view, csi_view, esc_view, lemma_scan_params, lemma_scan_inters, lemma_st_end, lemma_esc_end, feed_from, feed_safe_from, feed_view, row_view, rows_view, drop_trailing_empty, display_view, has_ink_view};
use crate::text::{
    chars_of, concat_vec, is_ascii_digit, is_control, is_control_char, is_ws, join_s, join_vecs, split_char,
    string_of, sub_vec, trim_end_s, trim_end_vec, views, lemma_views_push,
};

verus! {

/// One-shot helper width: wide enough that a single chunk does not wrap.
pub const ONESHOT_COLS: u16 = 256;

/// One-shot helper height.
pub const ONESHOT_ROWS: u16 = 128;

/// The cells, cursors and held escape tail behind a `PtyFrame`.
struct Grid {
    cols: usize,
    rows: usize,
    cells: Vec<char>,
    row: usize,
    col: usize,
    saved_row: usize,
    saved_col: usize,
    pending: Vec<char>,
}

impl View for Grid {
    type V = FrameView;

    closed spec fn view(&self) -> FrameView {
        FrameView {
            cols: self.cols as int,
            rows: self.rows as int,
            cells: self.cells@,
            row: self.row as int,
            col: self.col as int,
            saved_row: self.saved_row as int,
            saved_col: self.saved_col as int,
            pending: self.pending@,
        }
    }
}

proof fn lemma_cell_index(r: int, c: int, cols: int, rows: int)
    requires
        0 <= r < rows,
        0 <= c <= cols,
        1 <= cols <= 65535,
        rows <= 65535,
    ensures
        rows * cols <= 65535 * 65535,
        0 <= r * cols,
        r * cols + c <= r * cols + cols,
        r * cols + cols <= rows * cols,
        (r + 1) * cols == r * cols + cols,
        cols * rows == rows * cols,
{
    assert(0 <= r * cols) by (nonlinear_arith)
        requires
            0 <= r,
            1 <= cols,
    ;
    assert(r * cols + cols <= rows * cols) by (nonlinear_arith)
        requires
            r + 1 <= rows,
            1 <= cols,
    ;
    assert((r + 1) * cols == r * cols + cols) by (nonlinear_arith);
    assert(cols * rows == rows * cols) by (nonlinear_arith);
    assert(rows * cols <= 65535 * 65535) by (nonlinear_arith)
        requires
            1 <= cols <= 65535,
            rows <= 65535,
    ;
}

/// Row `r` of a valid grid lies inside the cells.
pub proof fn lemma_row_range(v: FrameView, r: int)
    requires
        wf_view(v),
        0 <= r < v.rows,
    ensures
        0 <= r * v.cols,
        r * v.cols + v.cols <= v.cells.len(),
        row_view(v, r).len() == v.cols,
        forall|i: int| 0 <= i < v.cols ==> #[trigger] row_view(v, r)[i] == v.cells[r * v.cols + i],
{
    lemma_cell_index(r, 0, v.cols, v.rows);
}

proof fn lemma_div_mod_bound(i: int, n: int, m: int)
    requires
        0 <= i < n * m,
        1 <= n,
    ensures
        0 <= i / n < m,
        0 <= i % n < n,
{
    assert(0 <= i / n < m) by (nonlinear_arith)
        requires
            0 <= i < n * m,
            1 <= n,
    ;
    assert(0 <= i % n < n) by (nonlinear_arith)
        requires
            1 <= n,
    ;
}

proof fn lemma_size_fits(c: int, r: int)
    requires
        1 <= c <= 65535,
        1 <= r <= 65535,
    ensures
        c * r <= 65535 * 65535,
        1 <= c * r,
{
    assert(c * r <= 65535 * 65535) by (nonlinear_arith)
        requires
            1 <= c <= 65535,
            1 <= r <= 65535,
    ;
    assert(1 <= c * r) by (nonlinear_arith)
        requires
            1 <= c,
            1 <= r,
    ;
}

fn blank_vec(n: usize) -> (v: Vec<char>)
    ensures
        v@ == blank_cells(n as int),
{
    let mut v: Vec<char> = Vec::new();
    let mut i: usize = 0;
    while i < n
        invariant
            i <= n,
            v@ == blank_cells(i as int),
        decreases n - i,
    {
        v.push(' ');
        assert(v@ =~= blank_cells(i + 1));
        i = i + 1;
    }
    v
}

fn max1(x: u16) -> (r: usize)
    ensures
        r as int == max(x as int, 1),
{
    if x == 0 {
        1
    } else {
        x as usize
    }
}

/// Parameter text as the number it spells, or 0 (like `parse::<u16>().unwrap_or(0)`).
fn param_value_exec(p: &Vec<char>) -> (r: u16)
    ensures
        r as int == param_value(p@),
{
    let mut acc: u32 = 0;
    let mut k: usize = 0;
    while k < p.len()
        invariant
            k <= p.len(),
            all_digits(p@.take(k as int)),
            acc as int == min(digits_val(p@.take(k as int)) as int, 65536),
        decreases p.len() - k,
    {
        let c = p[k];
        if !('0' <= c && c <= '9') {
            proof {
                assert(!is_ascii_digit(p@[k as int]));
            }
            return 0;
        }
        proof {
            assert(p@.take(k + 1).drop_last() =~= p@.take(k as int));
            assert(p@.take(k + 1).last() == c);
            assert(all_digits(p@.take(k + 1))) by {
                assert forall|j: int| 0 <= j < k + 1 implies is_ascii_digit(
                    #[trigger] p@.take(k + 1)[j],
                ) by {
                    if j < k {
                        assert(p@.take(k + 1)[j] == p@.take(k as int)[j]);
                    }
                }
            }
        }
        let d = (c as u32) - 48;
        if acc >= 65536 {
            acc = 65536;
        } else {
            acc = acc * 10 + d;
            if acc > 65536 {
                acc = 65536;
            }
        }
        k = k + 1;
    }
    proof {
        assert(p@.take(p.len() as int) =~= p@);
    }
    if p.len() > 0 && acc <= 65535 {
        acc as u16
    } else {
        0
    }
}

/// Widened view of parameter values.
pub open spec fn ints(s: Seq<u16>) -> Seq<int> {
    s.map_values(|x: u16| x as int)
}

/// The CSI parameters between `a` and `f`.
fn parse_params(s: &Vec<char>, a: usize, f: usize) -> (r: Vec<u16>)
    requires
        a <= f <= s.len(),
    ensures
        ints(r@) == parse_params_s(s@.subrange(a as int, f as int)),
{
    let raw = sub_vec(s, a, f);
    if raw.len() == 0 {
        let r: Vec<u16> = Vec::new();
        assert(ints(r@) =~= seq![]);
        return r;
    }
    let pieces = split_char(&raw, ';');
    let ghost want = crate::text::split_s(raw@, ';').map_values(|p: Seq<char>| param_value(p));
    let mut out: Vec<u16> = Vec::new();
    let mut i: usize = 0;
    while i < pieces.len()
        invariant
            i <= pieces.len(),
            views(pieces@) == crate::text::split_s(raw@, ';'),
            want == crate::text::split_s(raw@, ';').map_values(|p: Seq<char>| param_value(p)),
            ints(out@) == want.take(i as int),
            out@.len() == i,
            want.len() == pieces@.len(),
        decreases pieces.len() - i,
    {
        let v = param_value_exec(&pieces[i]);
        proof {
            assert(views(pieces@)[i as int] == pieces@[i as int]@);
            assert(want.len() == pieces@.len());
            assert(want[i as int] == param_value(pieces@[i as int]@));
        }
        let ghost prev = out@;
        out.push(v);
        proof {
            assert(out@ == prev.push(v));
            assert forall|j: int| 0 <= j < i + 1 implies #[trigger] ints(out@)[j] == want.take(
                i + 1,
            )[j] by {
                assert(ints(out@)[j] == out@[j] as int);
                if j < i {
                    assert(out@[j] == prev[j]);
                    assert(ints(prev)[j] == prev[j] as int);
                    assert(ints(prev)[j] == want.take(i as int)[j]);
                } else {
                    assert(out@[j] == v);
                }
            }
            assert(ints(out@) =~= want.take(i + 1));
        }
        i = i + 1;
    }
    proof {
        assert(want.take(pieces.len() as int) =~= want);
    }
    out
}

fn is_param_char_exec(c: char) -> (r: bool)
    ensures
        r == is_param_char(c),
{
    ('0' <= c && c <= '9') || c == ';'
}

fn scan_params_exec(s: &Vec<char>, i: usize) -> (r: usize)
    requires
        i <= s.len(),
    ensures
        r as int == scan_params(s@, i as int),
        i <= r <= s.len(),
{
    let mut k = i;
    while k < s.len() && is_param_char_exec(s[k])
        invariant
            i <= k <= s.len(),
            scan_params(s@, k as int) == scan_params(s@, i as int),
        decreases s.len() - k,
    {
        k = k + 1;
    }
    k
}

fn scan_inters_exec(s: &Vec<char>, i: usize) -> (r: usize)
    requires
        i <= s.len(),
    ensures
        r as int == scan_inters(s@, i as int),
        i <= r <= s.len(),
{
    let mut k = i;
    while k < s.len() && (' ' <= s[k] && s[k] <= '/')
        invariant
            i <= k <= s.len(),
            scan_inters(s@, k as int) == scan_inters(s@, i as int),
        decreases s.len() - k,
    {
        k = k + 1;
    }
    k
}

fn csi_params_start_exec(s: &Vec<char>, p: usize) -> (r: usize)
    requires
        p + 1 < s.len(),
    ensures
        r as int == csi_params_start(s@, p as int),
        p + 2 <= r <= s.len(),
{
    if p + 2 < s.len() && (s[p + 2] == '?' || s[p + 2] == '>' || s[p + 2] == '=' || s[p + 2]
        == '<') {
        p + 3
    } else {
        p + 2
    }
}

/// Index of the final character of the CSI whose ESC is at `p`.
fn consume_csi(s: &Vec<char>, p: usize) -> (r: usize)
    requires
        p + 1 < s.len(),
    ensures
        r as int == csi_final(s@, p as int),
        csi_params_start(s@, p as int) <= r <= s.len(),
{
    let a = csi_params_start_exec(s, p);
    let b = scan_params_exec(s, a);
    scan_inters_exec(s, b)
}

/// End of an OSC, DCS, APC, PM or SOS body that starts at `i`: it runs to a
/// BEL or an ST, and a lone ESC ends it early; `None` while unterminated.
fn consume_string(s: &Vec<char>, i: usize) -> (r: Option<usize>)
    ensures
        match r {
            None => st_end(s@, i as int) is None,
            Some(e) => st_end(s@, i as int) == Some(e as int),
        },
{
    let mut k = i;
    while k < s.len()
        invariant
            i <= k,
            st_end(s@, k as int) == st_end(s@, i as int),
        decreases s.len() - k,
    {
        if s[k] == '\u{7}' {
            return Some(k + 1);
        }
        if s[k] == '\u{1b}' {
            if k + 1 >= s.len() {
                return None;
            }
            if s[k + 1] == '\\' {
                return Some(k + 2);
            }
            return Some(k);
        }
        k = k + 1;
    }
    None
}

/// End of the escape sequence whose ESC is at `p`, or `None` when incomplete.
fn consume_esc(s: &Vec<char>, p: usize) -> (r: Option<usize>)
    requires
        p < s.len(),
    ensures
        match r {
            None => esc_end(s@, p as int) is None,
            Some(e) => esc_end(s@, p as int) == Some(e as int),
        },
{
    if p + 1 >= s.len() {
        return None;
    }
    let c = s[p + 1];
    if c == '[' {
        let f = consume_csi(s, p);
        if f >= s.len() {
            None
        } else {
            Some(f + 1)
        }
    } else if c == ']' || c == 'P' || c == '_' || c == '^' || c == 'X' {
        consume_string(s, p + 2)
    } else if c == '(' || c == ')' || c == '*' || c == '+' {
        if p + 2 >= s.len() {
            None
        } else {
            Some(p + 3)
        }
    } else {
        Some(p + 2)
    }
}

fn mov_param_exec(ps: &Vec<u16>) -> (r: u16)
    ensures
        r as int == mov_param(ints(ps@)),
        r >= 1,
{
    if ps.len() == 0 || ps[0] == 0 {
        1
    } else {
        ps[0]
    }
}

fn cup_param_exec(ps: &Vec<u16>, k: usize) -> (r: u16)
    ensures
        r as int == cup_param(ints(ps@), k as int),
        r >= 1,
{
    if k >= ps.len() || ps[k] == 0 {
        1
    } else {
        ps[k]
    }
}

fn ed_param_exec(ps: &Vec<u16>) -> (r: u16)
    ensures
        r as int == ed_param(ints(ps@)),
{
    if ps.len() == 0 {
        0
    } else {
        ps[0]
    }
}

fn any_alt_screen(ps: &Vec<u16>) -> (r: bool)
    ensures
        r == (exists|k: int| 0 <= k < ints(ps@).len() && is_alt_screen_code(#[trigger] ints(ps@)[k])),
{
    let mut i: usize = 0;
    while i < ps.len()
        invariant
            i <= ps.len(),
            forall|k: int| 0 <= k < i ==> !is_alt_screen_code(#[trigger] ints(ps@)[k]),
        decreases ps.len() - i,
    {
        let p = ps[i];
        if p == 1049 || p == 1047 || p == 47 || p == 1048 {
            assert(is_alt_screen_code(ints(ps@)[i as int]));
            return true;
        }
        i = i + 1;
    }
    false
}

/// Views of a vector of strings.
pub open spec fn string_views(v: Seq<String>) -> Seq<Seq<char>> {
    v.map_values(|x: String| x@)
}

impl Grid {
    /// Empty grid. Zero cols or rows become 1.
    fn new(cols: u16, rows: u16) -> (f: Self)
        ensures
            f@ == new_view(cols as int, rows as int),
            wf_view(f@),
    {
        let c = max1(cols);
        let r = max1(rows);
        proof {
            lemma_size_fits(c as int, r as int);
        }
        let cells = blank_vec(c * r);
        let f = Grid {
            cols: c,
            rows: r,
            cells,
            row: 0,
            col: 0,
            saved_row: 0,
            saved_col: 0,
            pending: Vec::new(),
        };
        assert(f@.pending =~= seq![]);
        f
    }

    /// Grid size as `(cols, rows)`.
    fn size(&self) -> (r: (u16, u16))
        requires
            wf_view(self@),
        ensures
            r.0 as int == self@.cols,
            r.1 as int == self@.rows,
    {
        (self.cols as u16, self.rows as u16)
    }

    /// Zero-based cursor as `(col, row)`.
    fn cursor(&self) -> (r: (u16, u16))
        requires
            wf_view(self@),
        ensures
            r.0 as int == self@.col,
            r.1 as int == self@.row,
    {
        (self.col as u16, self.row as u16)
    }

    /// True while an incomplete escape sequence is held.
    fn has_pending(&self) -> (r: bool)
        ensures
            r == (self@.pending.len() > 0),
    {
        self.pending.len() > 0
    }

    /// Resize the grid, keeping the overlapping top-left block and clamping
    /// the cursor and the saved cursor onto the new grid.
    fn resize(&mut self, cols: u16, rows: u16)
        requires
            wf_view(old(self)@),
        ensures
            final(self)@ == resize_view(old(self)@, cols as int, rows as int),
            wf_view(final(self)@),
    {
        let nc = max1(cols);
        let nr = max1(rows);
        if nc == self.cols && nr == self.rows {
            return ;
        }
        proof {
            lemma_size_fits(nc as int, nr as int);
        }
        let ghost v0 = self@;
        let copy_cols = if self.cols < nc {
            self.cols
        } else {
            nc
        };
        let copy_rows = if self.rows < nr {
            self.rows
        } else {
            nr
        };
        let n = nc * nr;
        let mut next: Vec<char> = Vec::new();
        let mut i: usize = 0;
        while i < n
            invariant
                i <= n,
                n == nc * nr,
                1 <= nc,
                1 <= nr,
                v0 == self@,
                wf_view(v0),
                copy_cols as int == min(v0.cols, nc as int),
                copy_rows as int == min(v0.rows, nr as int),
                next@ == resized_cells(v0, nc as int, nr as int).take(i as int),
                forall|k: int| 0 <= k < next@.len() ==> !is_control(#[trigger] next@[k]),
            decreases n - i,
        {
            proof {
                lemma_div_mod_bound(i as int, nc as int, nr as int);
            }
            let rr = i / nc;
            let cc = i % nc;
            let ch = if rr < copy_rows && cc < copy_cols {
                proof {
                    lemma_cell_index(rr as int, cc as int, v0.cols, v0.rows);
                }
                self.cells[rr * self.cols + cc]
            } else {
                ' '
            };
            next.push(ch);
            proof {
                assert(next@ =~= resized_cells(v0, nc as int, nr as int).take(i + 1));
            }
            i = i + 1;
        }
        proof {
            assert(next@ =~= resized_cells(v0, nc as int, nr as int));
        }
        self.cells = next;
        self.cols = nc;
        self.rows = nr;
        self.row = if self.row < nr - 1 {
            self.row
        } else {
            nr - 1
        };
        self.col = if self.col < nc - 1 {
            self.col
        } else {
            nc - 1
        };
        self.saved_row = if self.saved_row < nr - 1 {
            self.saved_row
        } else {
            nr - 1
        };
        self.saved_col = if self.saved_col < nc - 1 {
            self.saved_col
        } else {
            nc - 1
        };
        proof {
            assert(self@ =~= resize_view(v0, cols as int, rows as int));
        }
    }

    fn fill_range(&mut self, a: usize, b: usize)
        requires
            wf_view(old(self)@),
            a <= b <= old(self)@.cells.len(),
        ensures
            final(self)@ == (FrameView { cells: fill(old(self)@.cells, a as int, b as int), ..old(self)@ }),
            wf_view(final(self)@),
    {
        let ghost v0 = self@;
        let mut k = a;
        proof {
            assert(fill(v0.cells, a as int, a as int) =~= v0.cells);
        }
        while k < b
            invariant
                a <= k <= b <= v0.cells.len(),
                self@ == (FrameView { cells: fill(v0.cells, a as int, k as int), ..v0 }),
                wf_view(v0),
                wf_view(self@),
            decreases b - k,
        {
            self.cells.set(k, ' ');
            proof {
                assert(self.cells@ =~= fill(v0.cells, a as int, k + 1));
            }
            k = k + 1;
        }
    }

    fn clear_all(&mut self)
        requires
            wf_view(old(self)@),
        ensures
            final(self)@ == clear_all_view(old(self)@),
            wf_view(final(self)@),
    {
        let n = self.cells.len();
        self.fill_range(0, n);
    }

    fn scroll_up(&mut self)
        requires
            wf_view(old(self)@),
        ensures
            final(self)@ == scroll_up_view(old(self)@),
            wf_view(final(self)@),
    {
        let ghost v0 = self@;
        let n = self.cells.len();
        proof {
            lemma_cell_index(0, 0, v0.cols, v0.rows);
        }
        let mut next: Vec<char> = Vec::new();
        let mut i: usize = 0;
        while i < n
            invariant
                i <= n,
                n == v0.cells.len(),
                v0.cols <= n,
                v0 == self@,
                wf_view(v0),
                next@ == scroll_up_view(v0).cells.take(i as int),
                forall|k: int| 0 <= k < next@.len() ==> !is_control(#[trigger] next@[k]),
            decreases n - i,
        {
            let ch = if i < n - self.cols {
                self.cells[i + self.cols]
            } else {
                ' '
            };
            next.push(ch);
            proof {
                assert(next@ =~= scroll_up_view(v0).cells.take(i + 1));
            }
            i = i + 1;
        }
        proof {
            assert(next@ =~= scroll_up_view(v0).cells);
        }
        self.cells = next;
    }

    fn scroll_down(&mut self)
        requires
            wf_view(old(self)@),
        ensures
            final(self)@ == scroll_down_view(old(self)@),
            wf_view(final(self)@),
    {
        let ghost v0 = self@;
        let n = self.cells.len();
        let mut next: Vec<char> = Vec::new();
        let mut i: usize = 0;
        while i < n
            invariant
                i <= n,
                n == v0.cells.len(),
                v0 == self@,
                wf_view(v0),
                next@ == scroll_down_view(v0).cells.take(i as int),
                forall|k: int| 0 <= k < next@.len() ==> !is_control(#[trigger] next@[k]),
            decreases n - i,
        {
            let ch = if i < self.cols {
                ' '
            } else {
                self.cells[i - self.cols]
            };
            next.push(ch);
            proof {
                assert(next@ =~= scroll_down_view(v0).cells.take(i + 1));
            }
            i = i + 1;
        }
        proof {
            assert(next@ =~= scroll_down_view(v0).cells);
        }
        self.cells = next;
    }

    fn index(&mut self)
        requires
            wf_view(old(self)@),
        ensures
            final(self)@ == index_view(old(self)@),
            wf_view(final(self)@),
    {
        if self.row + 1 < self.rows {
            self.row = self.row + 1;
        } else {
            self.scroll_up();
        }
    }

    fn reverse_index(&mut self)
        requires
            wf_view(old(self)@),
        ensures
            final(self)@ == reverse_index_view(old(self)@),
            wf_view(final(self)@),
    {
        if self.row > 0 {
            self.row = self.row - 1;
        } else {
            self.scroll_down();
        }
    }

    fn write_cell(&mut self, ch: char)
        requires
            wf_view(old(self)@),
            !is_control(ch),
        ensures
            final(self)@ == write_cell_view(old(self)@, ch),
            wf_view(final(self)@),
    {
        if self.col >= self.cols {
            self.col = 0;
            self.index();
        }
        proof {
            lemma_cell_index(self.row as int, self.col as int, self.cols as int, self.rows as int);
        }
        let i = self.row * self.cols + self.col;
        self.cells.set(i, ch);
        self.col = self.col + 1;
    }

    fn put_char(&mut self, ch: char)
        requires
            wf_view(old(self)@),
        ensures
            final(self)@ == put_char_view(old(self)@, ch),
            wf_view(final(self)@),
    {
        if ch == '\r' {
            self.col = 0;
        } else if ch == '\n' {
            self.col = 0;
            self.index();
        } else if ch == '\t' {
            let next = (self.col / 8 + 1) * 8;
            self.col = if next < self.cols - 1 {
                next
            } else {
                self.cols - 1
            };
        } else if ch == '\u{8}' {
            if self.col > 0 {
                self.col = self.col - 1;
            }
        } else if ch == '\u{c}' {
            self.clear_all();
            self.row = 0;
            self.col = 0;
        } else if is_control_char(ch) {
        } else {
            self.write_cell(ch);
        }
    }

    fn erase_eol(&mut self)
        requires
            wf_view(old(self)@),
        ensures
            final(self)@ == erase_eol_view(old(self)@),
            wf_view(final(self)@),
    {
        proof {
            lemma_cell_index(self.row as int, self.col as int, self.cols as int, self.rows as int);
        }
        let start = self.row * self.cols + self.col;
        let end = self.row * self.cols + self.cols;
        self.fill_range(start, end);
    }

    fn erase_sol(&mut self)
        requires
            wf_view(old(self)@),
        ensures
            final(self)@ == erase_sol_view(old(self)@),
            wf_view(final(self)@),
    {
        proof {
            lemma_cell_index(self.row as int, self.col as int, self.cols as int, self.rows as int);
        }
        let start = self.row * self.cols;
        let c = if self.col < self.cols - 1 {
            self.col
        } else {
            self.cols - 1
        };
        let end = start + c + 1;
        self.fill_range(start, end);
    }

    fn erase_line(&mut self)
        requires
            wf_view(old(self)@),
        ensures
            final(self)@ == erase_line_view(old(self)@),
            wf_view(final(self)@),
    {
        proof {
            lemma_cell_index(self.row as int, self.col as int, self.cols as int, self.rows as int);
        }
        let start = self.row * self.cols;
        let end = start + self.cols;
        self.fill_range(start, end);
    }

    fn erase_to_end(&mut self)
        requires
            wf_view(old(self)@),
        ensures
            final(self)@ == erase_to_end_view(old(self)@),
            wf_view(final(self)@),
    {
        self.erase_eol();
        proof {
            lemma_cell_index(self.row as int, self.col as int, self.cols as int, self.rows as int);
        }
        let start = (self.row + 1) * self.cols;
        let n = self.cells.len();
        if start < n {
            self.fill_range(start, n);
        } else {
            proof {
                assert(self.cells@ =~= fill(self.cells@, start as int, n as int));
            }
        }
    }

    fn erase_to_start(&mut self)
        requires
            wf_view(old(self)@),
        ensures
            final(self)@ == erase_to_start_view(old(self)@),
            wf_view(final(self)@),
    {
        proof {
            lemma_cell_index(self.row as int, self.col as int, self.cols as int, self.rows as int);
        }
        let end = self.row * self.cols;
        self.fill_range(0, end);
        self.erase_sol();
    }

    fn reset(&mut self)
        requires
            wf_view(old(self)@),
        ensures
            final(self)@ == reset_view(old(self)@),
            wf_view(final(self)@),
    {
        self.clear_all();
        self.row = 0;
        self.col = 0;
        self.saved_row = 0;
        self.saved_col = 0;
        self.pending = Vec::new();
        proof {
            assert(self.pending@ =~= seq![]);
        }
    }

    fn cursor_up(&mut self, n: u16)
        requires
            wf_view(old(self)@),
        ensures
            final(self)@ == cursor_up_view(old(self)@, n as int),
            wf_view(final(self)@),
    {
        let n = n as usize;
        self.row = if self.row >= n {
            self.row - n
        } else {
            0
        };
    }

    fn cursor_down(&mut self, n: u16)
        requires
            wf_view(old(self)@),
        ensures
            final(self)@ == cursor_down_view(old(self)@, n as int),
            wf_view(final(self)@),
    {
        let t = self.row + n as usize;
        self.row = if t < self.rows - 1 {
            t
        } else {
            self.rows - 1
        };
    }

    fn cursor_right(&mut self, n: u16)
        requires
            wf_view(old(self)@),
        ensures
            final(self)@ == cursor_right_view(old(self)@, n as int),
            wf_view(final(self)@),
    {
        let t = self.col + n as usize;
        self.col = if t < self.cols - 1 {
            t
        } else {
            self.cols - 1
        };
    }

    fn cursor_left(&mut self, n: u16)
        requires
            wf_view(old(self)@),
        ensures
            final(self)@ == cursor_left_view(old(self)@, n as int),
            wf_view(final(self)@),
    {
        let n = n as usize;
        self.col = if self.col >= n {
            self.col - n
        } else {
            0
        };
    }

    fn apply_csi(&mut self, s: &Vec<char>, p: usize, f: usize)
        requires
            wf_view(old(self)@),
            p + 1 < s.len(),
            s@[p + 1] == '[',
            f as int == csi_final(s@, p as int),
            f < s.len(),
        ensures
            final(self)@ == csi_view(old(self)@, s@, p as int),
            wf_view(final(self)@),
    {
        let a = csi_params_start_exec(s, p);
        proof {
            lemma_scan_params(s@, a as int);
            lemma_scan_inters(s@, scan_params(s@, a as int));
        }
        let cmd = s[f];
        let ps = parse_params(s, a, f);
        if p + 2 < s.len() && s[p + 2] == '?' {
            if (cmd == 'h' || cmd == 'l') && any_alt_screen(&ps) {
                self.clear_all();
                self.row = 0;
                self.col = 0;
            }
            return ;
        }
        if cmd == 'A' {
            let n = mov_param_exec(&ps);
            self.cursor_up(n);
        } else if cmd == 'B' {
            let n = mov_param_exec(&ps);
            self.cursor_down(n);
        } else if cmd == 'C' {
            let n = mov_param_exec(&ps);
            self.cursor_right(n);
        } else if cmd == 'D' {
            let n = mov_param_exec(&ps);
            self.cursor_left(n);
        } else if cmd == 'E' {
            let n = mov_param_exec(&ps);
            self.col = 0;
            self.cursor_down(n);
        } else if cmd == 'F' {
            let n = mov_param_exec(&ps);
            self.col = 0;
            self.cursor_up(n);
        } else if cmd == 'G' {
            let n = mov_param_exec(&ps) as usize - 1;
            self.col = if n < self.cols - 1 {
                n
            } else {
                self.cols - 1
            };
        } else if cmd == 'H' || cmd == 'f' {
            let r = cup_param_exec(&ps, 0) as usize - 1;
            let c = cup_param_exec(&ps, 1) as usize - 1;
            self.row = if r < self.rows - 1 {
                r
            } else {
                self.rows - 1
            };
            self.col = if c < self.cols - 1 {
                c
            } else {
                self.cols - 1
            };
        } else if cmd == 'J' {
            let m = ed_param_exec(&ps);
            if m == 0 {
                self.erase_to_end();
            } else if m == 1 {
                self.erase_to_start();
            } else {
                self.clear_all();
            }
        } else if cmd == 'K' {
            let m = ed_param_exec(&ps);
            if m == 0 {
                self.erase_eol();
            } else if m == 1 {
                self.erase_sol();
            } else {
                self.erase_line();
            }
        } else if cmd == 's' {
            self.saved_row = self.row;
            self.saved_col = self.col;
        } else if cmd == 'u' {
            self.row = self.saved_row;
            self.col = self.saved_col;
        }
    }

    fn apply_esc(&mut self, s: &Vec<char>, p: usize, e: usize)
        requires
            wf_view(old(self)@),
            p < s.len(),
            esc_end(s@, p as int) == Some(e as int),
        ensures
            final(self)@ == esc_view(old(self)@, s@, p as int),
            wf_view(final(self)@),
    {
        let c = s[p + 1];
        if c == '[' {
            let f = consume_csi(s, p);
            self.apply_csi(s, p, f);
        } else if c == '7' {
            self.saved_row = self.row;
            self.saved_col = self.col;
        } else if c == '8' {
            self.row = self.saved_row;
            self.col = self.saved_col;
        } else if c == 'c' {
            self.reset();
        } else if c == 'M' {
            self.reverse_index();
        } else if c == 'D' {
            self.index();
        } else if c == 'E' {
            self.col = 0;
            self.index();
        }
    }

    /// Feed a chunk of PTY output. Held input from the previous call is
    /// processed first; an escape sequence cut off at the end is held.
    fn feed(&mut self, raw: &str)
        requires
            wf_view(old(self)@),
            feed_safe_from(old(self)@.pending + raw@, 0),
        ensures
            final(self)@ == feed_view(old(self)@, raw@),
            wf_view(final(self)@),
    {
        let rv = chars_of(raw);
        if rv.len() == 0 && self.pending.len() == 0 {
            return ;
        }
        let ghost target = feed_view(self@, raw@);
        let input = concat_vec(&self.pending, &rv);
        self.pending = Vec::new();
        proof {
            assert(self.pending@ =~= seq![]);
        }
        let mut pos: usize = 0;
        while pos < input.len()
            invariant
                wf_view(self@),
                pos <= input.len(),
                feed_from(self@, input@, pos as int) == target,
                target == feed_view(old(self)@, raw@),
                feed_safe_from(input@, pos as int),
            decreases input.len() - pos,
        {
            if input[pos] == '\u{1b}' {
                let end = consume_esc(&input, pos);
                match end {
                    None => {
                        let ghost before = self@;
                        proof {
                            assert(feed_from(before, input@, pos as int) == (FrameView {
                                pending: input@.skip(pos as int),
                                ..before
                            }));
                        }
                        self.pending = sub_vec(&input, pos, input.len());
                        proof {
                            assert(self.pending@ =~= input@.skip(pos as int));
                            assert(self@ =~= (FrameView { pending: input@.skip(pos as int), ..before }));
                        }
                        return ;
                    },
                    Some(e) => {
                        proof {
                            lemma_esc_end(input@, pos as int);
                        }
                        self.apply_esc(&input, pos, e);
                        pos = e;
                    },
                }
            } else {
                self.put_char(input[pos]);
                pos = pos + 1;
            }
        }
    }

    /// Every row, trailing spaces kept, so a TUI grid does not collapse.
    fn lines(&self) -> (r: Vec<String>)
        requires
            wf_view(self@),
        ensures
            string_views(r@) == rows_view(self@),
    {
        let mut out: Vec<String> = Vec::new();
        let mut r: usize = 0;
        while r < self.rows
            invariant
                wf_view(self@),
                r <= self.rows,
                string_views(out@) == rows_view(self@).take(r as int),
                out@.len() == r,
            decreases self.rows - r,
        {
            proof {
                lemma_cell_index(r as int, 0, self.cols as int, self.rows as int);
            }
            let start = r * self.cols;
            let row = sub_vec(&self.cells, start, start + self.cols);
            let line = string_of(&row);
            let ghost prev = out@;
            out.push(line);
            proof {
                assert(string_views(out@) =~= rows_view(self@).take(r + 1)) by {
                    assert forall|j: int| 0 <= j < r + 1 implies #[trigger] string_views(out@)[j]
                        == rows_view(self@).take(r + 1)[j] by {
                        if j < r {
                            assert(string_views(prev)[j] == rows_view(self@).take(r as int)[j]);
                        }
                    }
                }
            }
            r = r + 1;
        }
        proof {
            assert(rows_view(self@).take(self.rows as int) =~= rows_view(self@));
        }
        out
    }

    /// True when any cell is not a space.
    fn has_ink(&self) -> (r: bool)
        requires
            wf_view(self@),
        ensures
            r == has_ink_view(self@),
    {
        let mut i: usize = 0;
        while i < self.cells.len()
            invariant
                i <= self.cells.len(),
                forall|k: int| 0 <= k < i ==> self.cells@[k] == ' ',
            decreases self.cells.len() - i,
        {
            if self.cells[i] != ' ' {
                assert(self@.cells[i as int] != ' ');
                return true;
            }
            i = i + 1;
        }
        false
    }

    /// Rows with trailing whitespace dropped and trailing empty rows removed,
    /// joined with `\n`; a blank screen is the empty string.
    fn display(&self) -> (r: String)
        requires
            wf_view(self@),
        ensures
            r@ == display_view(self@),
            crate::frame_laws::clean(r@),
    {
        proof {
            crate::frame_laws::law_display_is_clean(self@);
        }
        let ghost want = rows_view(self@).map_values(|l: Seq<char>| trim_end_s(l));
        let mut t: Vec<Vec<char>> = Vec::new();
        let mut r: usize = 0;
        while r < self.rows
            invariant
                wf_view(self@),
                r <= self.rows,
                want == rows_view(self@).map_values(|l: Seq<char>| trim_end_s(l)),
                views(t@) == want.take(r as int),
            decreases self.rows - r,
        {
            proof {
                lemma_cell_index(r as int, 0, self.cols as int, self.rows as int);
            }
            let start = r * self.cols;
            let row = sub_vec(&self.cells, start, start + self.cols);
            let trimmed = trim_end_vec(&row);
            proof {
                lemma_views_push(t@, trimmed);
                assert(want[r as int] == trim_end_s(row_view(self@, r as int)));
                assert(views(t@).push(trimmed@) =~= want.take(r + 1));
            }
            t.push(trimmed);
            r = r + 1;
        }
        proof {
            assert(want.take(self.rows as int) =~= want);
        }
        while t.len() > 0 && t[t.len() - 1].len() == 0
            invariant
                drop_trailing_empty(views(t@)) == drop_trailing_empty(want),
            decreases t.len(),
        {
            proof {
                assert(views(t@).last() == t@.last()@);
                assert(views(t@).drop_last() =~= views(t@.drop_last()));
            }
            t.pop();
        }
        proof {
            if views(t@).len() > 0 {
                assert(views(t@).last() == t@.last()@);
            }
        }
        let mut nl: Vec<char> = Vec::new();
        nl.push('\n');
        proof {
            assert(nl@ =~= seq!['\n']);
        }
        let joined = join_vecs(&t, &nl);
        string_of(&joined)
    }

}

/// Terminal grid fed from PTY output: cells, cursor, and the tail of an
/// escape sequence still waiting for its end, held across `feed` calls so a
/// split CSI cannot leak.
pub struct PtyFrame {
    grid: Grid,
}

impl View for PtyFrame {
    type V = FrameView;

    closed spec fn view(&self) -> FrameView {
        self.grid@
    }
}

impl PtyFrame {
    /// The grid is always well formed: the cell buffer is `cols * rows`,
    /// both at least one, and the cursors lie on the grid.
    #[verifier::type_invariant]
    spec fn well_formed(self) -> bool {
        wf_view(self.grid@)
    }

    /// Empty grid. Zero cols or rows become 1.
    pub fn new(cols: u16, rows: u16) -> (f: Self)
        ensures
            f@ == new_view(cols as int, rows as int),
            wf_view(f@),
    {
        PtyFrame { grid: Grid::new(cols, rows) }
    }

    /// Grid size as `(cols, rows)`.
    pub fn size(&self) -> (r: (u16, u16))
        ensures
            r.0 as int == self@.cols,
            r.1 as int == self@.rows,
            wf_view(self@),
    {
        proof {
            use_type_invariant(self);
        }
        self.grid.size()
    }

    /// Zero-based cursor as `(col, row)`.
    pub fn cursor(&self) -> (r: (u16, u16))
        ensures
            r.0 as int == self@.col,
            r.1 as int == self@.row,
    {
        proof {
            use_type_invariant(self);
        }
        self.grid.cursor()
    }

    /// True while an incomplete escape sequence is held.
    pub fn has_pending(&self) -> (r: bool)
        ensures
            r == (self@.pending.len() > 0),
    {
        self.grid.has_pending()
    }

    /// Resize the grid, keeping the overlapping top-left block and clamping
    /// the cursor and the saved cursor onto the new grid.
    pub fn resize(&mut self, cols: u16, rows: u16)
        ensures
            final(self)@ == resize_view(old(self)@, cols as int, rows as int),
            wf_view(final(self)@),
    {
        proof {
            use_type_invariant(&*self);
        }
        let mut f = PtyFrame::new(1, 1);
        std::mem::swap(self, &mut f);
        let PtyFrame { mut grid } = f;
        grid.resize(cols, rows);
        *self = PtyFrame { grid };
    }

    /// Whether feeding `raw` next stays inside the accepted input: no
    /// complete CSI, counting the held tail, ends in a non-ASCII char.
    pub fn feed_is_safe(&self, raw: &str) -> (r: bool)
        ensures
            r == feed_safe_from(self@.pending + raw@, 0),
    {
        let input = concat_vec(&self.grid.pending, &chars_of(raw));
        safe_from(&input)
    }

    /// Feed PTY output: printable chars are written at the cursor, control
    /// chars and escape sequences move it or erase, and an incomplete
    /// sequence at the end is held for the next call.
    pub fn feed(&mut self, raw: &str)
        requires
            feed_safe_from(old(self)@.pending + raw@, 0),
        ensures
            final(self)@ == feed_view(old(self)@, raw@),
            wf_view(final(self)@),
    {
        proof {
            use_type_invariant(&*self);
        }
        let mut f = PtyFrame::new(1, 1);
        std::mem::swap(self, &mut f);
        let PtyFrame { mut grid } = f;
        grid.feed(raw);
        *self = PtyFrame { grid };
    }

    /// Every row, trailing spaces kept, so a TUI grid does not collapse.
    pub fn lines(&self) -> (r: Vec<String>)
        ensures
            string_views(r@) == rows_view(self@),
    {
        proof {
            use_type_invariant(self);
        }
        self.grid.lines()
    }

    /// True when any cell is not a space.
    pub fn has_ink(&self) -> (r: bool)
        ensures
            r == has_ink_view(self@),
    {
        proof {
            use_type_invariant(self);
        }
        self.grid.has_ink()
    }

    /// Rows with trailing whitespace dropped and trailing empty rows removed,
    /// joined with `\n`; a blank screen is the empty string.
    pub fn display(&self) -> (r: String)
        ensures
            r@ == display_view(self@),
    {
        proof {
            use_type_invariant(self);
        }
        self.grid.display()
    }
}

/// `feed_safe_from(s, 0)`, computed.
fn safe_from(s: &Vec<char>) -> (r: bool)
    ensures
        r == feed_safe_from(s@, 0),
{
    let mut p: usize = 0;
    while p < s.len()
        invariant
            p <= s.len(),
            feed_safe_from(s@, p as int) == feed_safe_from(s@, 0),
        decreases s.len() - p,
    {
        if s[p] == '\u{1b}' {
            if p + 1 < s.len() && s[p + 1] == '[' {
                let f = consume_csi(s, p);
                if f < s.len() && s[f] > '\u{7f}' {
                    return false;
                }
            }
            match consume_esc(s, p) {
                None => {
                    return true;
                },
                Some(e) => {
                    proof {
                        lemma_esc_end(s@, p as int);
                    }
                    p = e;
                },
            }
        } else {
            p = p + 1;
        }
    }
    true
}

impl Default for PtyFrame {
    fn default() -> (f: Self)
        ensures
            f@ == new_view(80, 24),
    {
        Self::new(80, 24)
    }
}

/// Last-frame render of one PTY chunk on a grid wide enough not to wrap.
/// Incomplete sequences at the end are dropped.
pub fn render_pty_chunk(raw: &str) -> (r: String)
    requires
        feed_safe_from(raw@, 0),
    ensures
        r@ == display_view(feed_view(new_view(256, 128), raw@)),
{
    let mut frame = PtyFrame::new(ONESHOT_COLS, ONESHOT_ROWS);
    proof {
        assert(frame@.pending + raw@ =~= raw@);
    }
    frame.feed(raw);
    frame.display()
}

} // verus!

