//! Mathematical model of the last-frame VT grid: a state record and one spec
//! function per operation, plus the parser that splits input into printable
//! chars and escape sequences.

use vstd::prelude::*;
use crate::text::{is_ascii_digit, is_control, join_s, split_s, trim_end_s};

verus! {

pub const ESC: char = '\u{1b}';

pub const BEL: char = '\u{7}';

/// State of a grid: size, cells (row-major), cursor, saved cursor and the held
/// incomplete escape sequence.
pub struct FrameView {
    pub cols: int,
    pub rows: int,
    pub cells: Seq<char>,
    pub row: int,
    pub col: int,
    pub saved_row: int,
    pub saved_col: int,
    pub pending: Seq<char>,
}

/// Validity: a non-empty grid of at most `u16::MAX` on each side, the cursor on
/// the grid (the column may sit one past the edge, a pending wrap), and no
/// control char in any cell.
pub open spec fn wf_view(v: FrameView) -> bool {
    &&& 1 <= v.cols <= 65535
    &&& 1 <= v.rows <= 65535
    &&& v.cells.len() == v.cols * v.rows
    &&& 0 <= v.row < v.rows
    &&& 0 <= v.col <= v.cols
    &&& 0 <= v.saved_row < v.rows
    &&& 0 <= v.saved_col <= v.cols
    &&& forall|i: int| 0 <= i < v.cells.len() ==> !is_control(#[trigger] v.cells[i])
}

pub open spec fn blank_cells(n: int) -> Seq<char> {
    Seq::new(n as nat, |i: int| ' ')
}

/// Cells `a..b` blanked.
pub open spec fn fill(cells: Seq<char>, a: int, b: int) -> Seq<char> {
    Seq::new(cells.len(), |i: int| if a <= i < b { ' ' } else { cells[i] })
}

pub open spec fn min(a: int, b: int) -> int {
    if a <= b {
        a
    } else {
        b
    }
}

pub open spec fn max(a: int, b: int) -> int {
    if a >= b {
        a
    } else {
        b
    }
}

pub open spec fn new_view(cols: int, rows: int) -> FrameView {
    let c = max(cols, 1);
    let r = max(rows, 1);
    FrameView {
        cols: c,
        rows: r,
        cells: blank_cells(c * r),
        row: 0,
        col: 0,
        saved_row: 0,
        saved_col: 0,
        pending: seq![],
    }
}

/// Cells after resizing: the overlapping top-left block is kept.
pub open spec fn resized_cells(v: FrameView, nc: int, nr: int) -> Seq<char> {
    Seq::new(
        (nc * nr) as nat,
        |i: int|
            if i / nc < min(v.rows, nr) && i % nc < min(v.cols, nc) {
                v.cells[(i / nc) * v.cols + i % nc]
            } else {
                ' '
            },
    )
}

pub open spec fn resize_view(v: FrameView, cols: int, rows: int) -> FrameView {
    let nc = max(cols, 1);
    let nr = max(rows, 1);
    if nc == v.cols && nr == v.rows {
        v
    } else {
        FrameView {
            cols: nc,
            rows: nr,
            cells: resized_cells(v, nc, nr),
            row: min(v.row, nr - 1),
            col: min(v.col, nc - 1),
            saved_row: min(v.saved_row, nr - 1),
            saved_col: min(v.saved_col, nc - 1),
            pending: v.pending,
        }
    }
}

pub open spec fn scroll_up_view(v: FrameView) -> FrameView {
    let n = v.cells.len() as int;
    FrameView {
        cells: Seq::new(
            n as nat,
            |i: int|
                if i < n - v.cols {
                    v.cells[i + v.cols]
                } else {
                    ' '
                },
        ),
        ..v
    }
}

pub open spec fn scroll_down_view(v: FrameView) -> FrameView {
    let n = v.cells.len() as int;
    FrameView {
        cells: Seq::new(
            n as nat,
            |i: int|
                if i < v.cols {
                    ' '
                } else {
                    v.cells[i - v.cols]
                },
        ),
        ..v
    }
}

/// Line feed without carriage return: down one row, scrolling at the bottom.
pub open spec fn index_view(v: FrameView) -> FrameView {
    if v.row + 1 < v.rows {
        FrameView { row: v.row + 1, ..v }
    } else {
        scroll_up_view(v)
    }
}

pub open spec fn reverse_index_view(v: FrameView) -> FrameView {
    if v.row > 0 {
        FrameView { row: v.row - 1, ..v }
    } else {
        scroll_down_view(v)
    }
}

pub open spec fn write_cell_view(v: FrameView, ch: char) -> FrameView {
    let w = if v.col >= v.cols {
        index_view(FrameView { col: 0, ..v })
    } else {
        v
    };
    FrameView { cells: w.cells.update(w.row * w.cols + w.col, ch), col: w.col + 1, ..w }
}

pub open spec fn clear_all_view(v: FrameView) -> FrameView {
    FrameView { cells: fill(v.cells, 0, v.cells.len() as int), ..v }
}

pub open spec fn home_view(v: FrameView) -> FrameView {
    FrameView { row: 0, col: 0, ..v }
}

pub open spec fn erase_eol_view(v: FrameView) -> FrameView {
    FrameView {
        cells: fill(v.cells, v.row * v.cols + v.col, v.row * v.cols + v.cols),
        ..v
    }
}

pub open spec fn erase_sol_view(v: FrameView) -> FrameView {
    FrameView {
        cells: fill(v.cells, v.row * v.cols, v.row * v.cols + min(v.col, v.cols - 1) + 1),
        ..v
    }
}

pub open spec fn erase_line_view(v: FrameView) -> FrameView {
    FrameView { cells: fill(v.cells, v.row * v.cols, v.row * v.cols + v.cols), ..v }
}

pub open spec fn erase_to_end_view(v: FrameView) -> FrameView {
    let w = erase_eol_view(v);
    FrameView { cells: fill(w.cells, (w.row + 1) * w.cols, w.cells.len() as int), ..w }
}

pub open spec fn erase_to_start_view(v: FrameView) -> FrameView {
    erase_sol_view(FrameView { cells: fill(v.cells, 0, v.row * v.cols), ..v })
}

pub open spec fn reset_view(v: FrameView) -> FrameView {
    FrameView {
        cells: fill(v.cells, 0, v.cells.len() as int),
        row: 0,
        col: 0,
        saved_row: 0,
        saved_col: 0,
        pending: seq![],
        ..v
    }
}

pub open spec fn save_view(v: FrameView) -> FrameView {
    FrameView { saved_row: v.row, saved_col: v.col, ..v }
}

pub open spec fn restore_view(v: FrameView) -> FrameView {
    FrameView { row: v.saved_row, col: v.saved_col, ..v }
}

pub const TAB_STOP: usize = 8;

/// Effect of one non-ESC char.
pub open spec fn put_char_view(v: FrameView, ch: char) -> FrameView {
    if ch == '\r' {
        FrameView { col: 0, ..v }
    } else if ch == '\n' {
        index_view(FrameView { col: 0, ..v })
    } else if ch == '\t' {
        FrameView { col: min((v.col / 8 + 1) * 8, v.cols - 1), ..v }
    } else if ch == '\u{8}' {
        if v.col > 0 {
            FrameView { col: v.col - 1, ..v }
        } else {
            v
        }
    } else if ch == '\u{c}' {
        home_view(clear_all_view(v))
    } else if is_control(ch) {
        v
    } else {
        write_cell_view(v, ch)
    }
}

// ---------------------------------------------------------------------------
// Escape-sequence parsing (positions are char indices into the input)
// ---------------------------------------------------------------------------

pub open spec fn is_private(c: char) -> bool {
    c == '?' || c == '>' || c == '=' || c == '<'
}

pub open spec fn is_param_char(c: char) -> bool {
    is_ascii_digit(c) || c == ';'
}

pub open spec fn is_inter(c: char) -> bool {
    ' ' <= c && c <= '/'
}

pub open spec fn is_designator_intro(c: char) -> bool {
    c == '(' || c == ')' || c == '*' || c == '+'
}

pub open spec fn is_string_intro(c: char) -> bool {
    c == ']' || c == 'P' || c == '_' || c == '^' || c == 'X'
}

pub open spec fn scan_params(s: Seq<char>, i: int) -> int
    decreases s.len() - i,
{
    if 0 <= i < s.len() && is_param_char(s[i]) {
        scan_params(s, i + 1)
    } else {
        i
    }
}

pub open spec fn scan_inters(s: Seq<char>, i: int) -> int
    decreases s.len() - i,
{
    if 0 <= i < s.len() && is_inter(s[i]) {
        scan_inters(s, i + 1)
    } else {
        i
    }
}

/// Start of the CSI parameters for an ESC at `p` (after an optional private marker).
pub open spec fn csi_params_start(s: Seq<char>, p: int) -> int {
    if p + 2 < s.len() && is_private(s[p + 2]) {
        p + 3
    } else {
        p + 2
    }
}

/// Index of the CSI final char for an ESC at `p` (the length when missing).
pub open spec fn csi_final(s: Seq<char>, p: int) -> int {
    scan_inters(s, scan_params(s, csi_params_start(s, p)))
}

/// End of an OSC/DCS-style string scanned from `i`: after BEL, after ESC `\`,
/// or at a lone ESC; `None` when the input stops first.
pub open spec fn st_end(s: Seq<char>, i: int) -> Option<int>
    decreases s.len() - i,
{
    if !(0 <= i < s.len()) {
        None
    } else if s[i] == BEL {
        Some(i + 1)
    } else if s[i] == ESC {
        if i + 1 >= s.len() {
            None
        } else if s[i + 1] == '\\' {
            Some(i + 2)
        } else {
            Some(i)
        }
    } else {
        st_end(s, i + 1)
    }
}

/// End (exclusive) of the escape sequence whose ESC is at `p`; `None` when the
/// input stops before the sequence is complete.
pub open spec fn esc_end(s: Seq<char>, p: int) -> Option<int> {
    if p + 1 >= s.len() {
        None
    } else {
        let c = s[p + 1];
        if c == '[' {
            let f = csi_final(s, p);
            if f >= s.len() {
                None
            } else {
                Some(f + 1)
            }
        } else if is_string_intro(c) {
            st_end(s, p + 2)
        } else if is_designator_intro(c) {
            if p + 2 >= s.len() {
                None
            } else {
                Some(p + 3)
            }
        } else {
            Some(p + 2)
        }
    }
}

/// A complete CSI whose final char is not ASCII. Byte-indexed slicing would
/// cut inside that char, so such input is outside the accepted domain.
pub open spec fn esc_bad(s: Seq<char>, p: int) -> bool {
    p + 1 < s.len() && s[p + 1] == '[' && csi_final(s, p) < s.len() && s[csi_final(s, p)]
        > '\u{7f}'
}

// ---------------------------------------------------------------------------
// CSI parameters
// ---------------------------------------------------------------------------

pub open spec fn digits_val(p: Seq<char>) -> nat
    decreases p.len(),
{
    if p.len() == 0 {
        0
    } else {
        digits_val(p.drop_last()) * 10 + ((p.last() as u32) - ('0' as u32)) as nat
    }
}

pub open spec fn all_digits(p: Seq<char>) -> bool {
    forall|k: int| 0 <= k < p.len() ==> is_ascii_digit(#[trigger] p[k])
}

/// `part.parse::<u16>().unwrap_or(0)` for parameter text.
pub open spec fn param_value(p: Seq<char>) -> int {
    if p.len() > 0 && all_digits(p) && digits_val(p) <= 65535 {
        digits_val(p) as int
    } else {
        0
    }
}

/// Parameters of the text between the params start and the final char.
pub open spec fn parse_params_s(raw: Seq<char>) -> Seq<int> {
    if raw.len() == 0 {
        seq![]
    } else {
        split_s(raw, ';').map_values(|p: Seq<char>| param_value(p))
    }
}

pub open spec fn mov_param(ps: Seq<int>) -> int {
    if ps.len() == 0 || ps[0] == 0 {
        1
    } else {
        ps[0]
    }
}

pub open spec fn cup_param(ps: Seq<int>, k: int) -> int {
    if k >= ps.len() || ps[k] == 0 {
        1
    } else {
        ps[k]
    }
}

pub open spec fn ed_param(ps: Seq<int>) -> int {
    if ps.len() == 0 {
        0
    } else {
        ps[0]
    }
}

pub open spec fn is_alt_screen_code(p: int) -> bool {
    p == 1049 || p == 1047 || p == 47 || p == 1048
}

pub open spec fn cursor_up_view(v: FrameView, n: int) -> FrameView {
    FrameView { row: max(v.row - n, 0), ..v }
}

pub open spec fn cursor_down_view(v: FrameView, n: int) -> FrameView {
    FrameView { row: min(v.row + n, v.rows - 1), ..v }
}

pub open spec fn cursor_right_view(v: FrameView, n: int) -> FrameView {
    FrameView { col: min(v.col + n, v.cols - 1), ..v }
}

pub open spec fn cursor_left_view(v: FrameView, n: int) -> FrameView {
    FrameView { col: max(v.col - n, 0), ..v }
}

/// Effect of the CSI command `cmd` with parameters `ps` (no private marker, or a
/// marker other than `?`).
pub open spec fn csi_cmd_view(v: FrameView, cmd: char, ps: Seq<int>) -> FrameView {
    if cmd == 'A' {
        cursor_up_view(v, mov_param(ps))
    } else if cmd == 'B' {
        cursor_down_view(v, mov_param(ps))
    } else if cmd == 'C' {
        cursor_right_view(v, mov_param(ps))
    } else if cmd == 'D' {
        cursor_left_view(v, mov_param(ps))
    } else if cmd == 'E' {
        cursor_down_view(FrameView { col: 0, ..v }, mov_param(ps))
    } else if cmd == 'F' {
        cursor_up_view(FrameView { col: 0, ..v }, mov_param(ps))
    } else if cmd == 'G' {
        FrameView { col: min(mov_param(ps) - 1, v.cols - 1), ..v }
    } else if cmd == 'H' || cmd == 'f' {
        FrameView {
            row: min(cup_param(ps, 0) - 1, v.rows - 1),
            col: min(cup_param(ps, 1) - 1, v.cols - 1),
            ..v
        }
    } else if cmd == 'J' {
        if ed_param(ps) == 0 {
            erase_to_end_view(v)
        } else if ed_param(ps) == 1 {
            erase_to_start_view(v)
        } else {
            clear_all_view(v)
        }
    } else if cmd == 'K' {
        if ed_param(ps) == 0 {
            erase_eol_view(v)
        } else if ed_param(ps) == 1 {
            erase_sol_view(v)
        } else {
            erase_line_view(v)
        }
    } else if cmd == 's' {
        save_view(v)
    } else if cmd == 'u' {
        restore_view(v)
    } else {
        v
    }
}

/// Effect of a complete CSI whose ESC is at `p` in `s`.
pub open spec fn csi_view(v: FrameView, s: Seq<char>, p: int) -> FrameView {
    let f = csi_final(s, p);
    let cmd = s[f];
    let ps = parse_params_s(s.subrange(csi_params_start(s, p), f));
    if p + 2 < s.len() && s[p + 2] == '?' {
        if (cmd == 'h' || cmd == 'l') && (exists|k: int|
            0 <= k < ps.len() && is_alt_screen_code(#[trigger] ps[k])) {
            home_view(clear_all_view(v))
        } else {
            v
        }
    } else {
        csi_cmd_view(v, cmd, ps)
    }
}

/// Effect of the complete escape sequence whose ESC is at `p`.
pub open spec fn esc_view(v: FrameView, s: Seq<char>, p: int) -> FrameView {
    let c = s[p + 1];
    if c == '[' {
        csi_view(v, s, p)
    } else if c == '7' {
        save_view(v)
    } else if c == '8' {
        restore_view(v)
    } else if c == 'c' {
        reset_view(v)
    } else if c == 'M' {
        reverse_index_view(v)
    } else if c == 'D' {
        index_view(v)
    } else if c == 'E' {
        index_view(FrameView { col: 0, ..v })
    } else {
        v
    }
}

pub proof fn lemma_scan_params(s: Seq<char>, i: int)
    requires
        0 <= i <= s.len(),
    ensures
        i <= scan_params(s, i) <= s.len(),
        forall|k: int| i <= k < scan_params(s, i) ==> is_param_char(#[trigger] s[k]),
        scan_params(s, i) < s.len() ==> !is_param_char(s[scan_params(s, i)]),
    decreases s.len() - i,
{
    if i < s.len() && is_param_char(s[i]) {
        lemma_scan_params(s, i + 1);
    }
}

pub proof fn lemma_scan_inters(s: Seq<char>, i: int)
    requires
        0 <= i <= s.len(),
    ensures
        i <= scan_inters(s, i) <= s.len(),
        forall|k: int| i <= k < scan_inters(s, i) ==> is_inter(#[trigger] s[k]),
        scan_inters(s, i) < s.len() ==> !is_inter(s[scan_inters(s, i)]),
    decreases s.len() - i,
{
    if i < s.len() && is_inter(s[i]) {
        lemma_scan_inters(s, i + 1);
    }
}

pub proof fn lemma_st_end(s: Seq<char>, i: int)
    requires
        0 <= i,
    ensures
        st_end(s, i) matches Some(e) ==> i <= e <= s.len(),
    decreases s.len() - i,
{
    if 0 <= i < s.len() && s[i] != BEL && s[i] != ESC {
        lemma_st_end(s, i + 1);
    }
}

/// A complete sequence spans at least its ESC and the char after it.
pub proof fn lemma_esc_end(s: Seq<char>, p: int)
    requires
        0 <= p < s.len(),
    ensures
        esc_end(s, p) matches Some(e) ==> p + 2 <= e <= s.len(),
{
    if p + 1 < s.len() {
        let c = s[p + 1];
        if c == '[' {
            lemma_scan_params(s, csi_params_start(s, p));
            lemma_scan_inters(s, scan_params(s, csi_params_start(s, p)));
        } else if is_string_intro(c) {
            lemma_st_end(s, p + 2);
        }
    }
}

// ---------------------------------------------------------------------------
// Feeding input
// ---------------------------------------------------------------------------

/// Processes `s` from position `p`: printable and control chars one at a time,
/// complete escape sequences whole, and an incomplete one held as pending.
pub open spec fn feed_from(v: FrameView, s: Seq<char>, p: int) -> FrameView
    decreases s.len() - p,
{
    if !(0 <= p < s.len()) {
        v
    } else if s[p] == ESC {
        match esc_end(s, p) {
            None => FrameView { pending: s.skip(p), ..v },
            Some(e) => {
                proof {
                    lemma_esc_end(s, p);
                }
                feed_from(esc_view(v, s, p), s, e)
            },
        }
    } else {
        feed_from(put_char_view(v, s[p]), s, p + 1)
    }
}

/// The input from `p` on never reaches a CSI with a non-ASCII final char.
pub open spec fn feed_safe_from(s: Seq<char>, p: int) -> bool
    decreases s.len() - p,
{
    if !(0 <= p < s.len()) {
        true
    } else if s[p] == ESC {
        if esc_bad(s, p) {
            false
        } else {
            match esc_end(s, p) {
                None => true,
                Some(e) => {
                    proof {
                        lemma_esc_end(s, p);
                    }
                    feed_safe_from(s, e)
                },
            }
        }
    } else {
        feed_safe_from(s, p + 1)
    }
}

/// `PtyFrame::feed`: held input first, then `raw`.
pub open spec fn feed_view(v: FrameView, raw: Seq<char>) -> FrameView {
    if raw.len() == 0 && v.pending.len() == 0 {
        v
    } else {
        feed_from(FrameView { pending: seq![], ..v }, v.pending + raw, 0)
    }
}

// ---------------------------------------------------------------------------
// Reading the grid
// ---------------------------------------------------------------------------

pub open spec fn row_view(v: FrameView, r: int) -> Seq<char> {
    v.cells.subrange(r * v.cols, r * v.cols + v.cols)
}

pub open spec fn rows_view(v: FrameView) -> Seq<Seq<char>> {
    Seq::new(v.rows as nat, |r: int| row_view(v, r))
}

pub open spec fn drop_trailing_empty(ls: Seq<Seq<char>>) -> Seq<Seq<char>>
    decreases ls.len(),
{
    if ls.len() > 0 && ls.last().len() == 0 {
        drop_trailing_empty(ls.drop_last())
    } else {
        ls
    }
}

/// Rows with trailing whitespace trimmed, trailing empty rows dropped, joined
/// with `\n`.
pub open spec fn display_view(v: FrameView) -> Seq<char> {
    join_s(
        drop_trailing_empty(rows_view(v).map_values(|l: Seq<char>| trim_end_s(l))),
        seq!['\n'],
    )
}

pub open spec fn has_ink_view(v: FrameView) -> bool {
    exists|i: int| 0 <= i < v.cells.len() && v.cells[i] != ' '
}

} // verus!
