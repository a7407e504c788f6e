//! The mathematical model of a plane: a grid of rows, a cursor and the
//! height of the header block, with the effect of every operation on it.

use vstd::prelude::*;

use crate::glyph::{
    spec_box_drawing, spec_filler, spec_horz_line, spec_vert_crossing, spec_vert_left,
    spec_vert_line, spec_vert_right,
};

verus! {

/// A plane seen as values: the rows, the cursor and the header height.
pub struct PlaneModel {
    pub grid: Seq<Seq<char>>,
    pub row: int,
    pub col: int,
    pub iih: int,
}

impl PlaneModel {
    /// The header height names a row of the grid, or is zero.
    pub open spec fn wf(self) -> bool {
        &&& 0 <= self.row <= usize::MAX
        &&& 0 <= self.col <= usize::MAX
        &&& 0 <= self.iih
        &&& (self.iih == 0 || self.iih < self.grid.len())
    }

    /// The same plane with the cursor at `(row, col)`.
    pub open spec fn with_cursor(self, row: int, col: int) -> PlaneModel {
        PlaneModel { row, col, ..self }
    }

    /// The same plane with other rows.
    pub open spec fn with_grid(self, grid: Seq<Seq<char>>) -> PlaneModel {
        PlaneModel { grid, ..self }
    }
}

/// `x + d`, held within the range of `usize`.
pub open spec fn sat(x: int, d: int) -> int {
    if x + d < 0 {
        0
    } else if x + d > usize::MAX {
        usize::MAX as int
    } else {
        x + d
    }
}

/// Strictly inside the table: neither the first nor the last row, neither
/// the first nor the last column of its row.
pub open spec fn interior(g: Seq<Seq<char>>, r: int, c: int) -> bool {
    1 <= r < g.len() - 1 && 1 <= c < g[r].len() - 1
}

/// A position where the cursor may rest: interior and not a box-drawing glyph.
pub open spec fn allowed(g: Seq<Seq<char>>, r: int, c: int) -> bool {
    interior(g, r, c) && !spec_box_drawing(g[r][c])
}

pub open spec fn horz_line_at(g: Seq<Seq<char>>, r: int, c: int) -> bool {
    0 <= r < g.len() && 0 <= c < g[r].len() && spec_horz_line(g[r][c])
}

pub open spec fn vert_line_at(g: Seq<Seq<char>>, r: int, c: int) -> bool {
    0 <= r < g.len() && 0 <= c < g[r].len() && spec_vert_line(g[r][c])
}

/// Where a one-step move by `(dr, dc)` lands: the neighbour when the cursor
/// may rest there, else the cell beyond a line that lies in between.
pub open spec fn step_target(m: PlaneModel, dr: int, dc: int) -> Option<(int, int)> {
    let (r1, c1) = (sat(m.row, dr), sat(m.col, dc));
    let (r2, c2) = (sat(m.row, 2 * dr), sat(m.col, 2 * dc));
    let line = if dr != 0 {
        horz_line_at(m.grid, r1, c1)
    } else {
        vert_line_at(m.grid, r1, c1)
    };
    if allowed(m.grid, r1, c1) {
        Some((r1, c1))
    } else if line && allowed(m.grid, r2, c2) {
        Some((r2, c2))
    } else {
        None
    }
}

/// The state after a move to `(r, c)`, which happens only where the cursor may rest.
pub open spec fn moved_to(m: PlaneModel, r: int, c: int) -> PlaneModel {
    if allowed(m.grid, r, c) {
        m.with_cursor(r, c)
    } else {
        m
    }
}

/// The state after a one-step move by `(dr, dc)`, or `None` when it is blocked.
pub open spec fn stepped(m: PlaneModel, dr: int, dc: int) -> Option<PlaneModel> {
    match step_target(m, dr, dc) {
        Some((r, c)) => Some(m.with_cursor(r, c)),
        None => None,
    }
}

/// To the first position of the cell, right of the separator on the left.
pub open spec fn cell_start(m: PlaneModel) -> Option<PlaneModel> {
    let i = prev_vert_right(m.grid[m.row], m.col);
    if interior(m.grid, m.row, m.col) && i >= 0 {
        Some(moved_to(m, m.row, i + 1))
    } else {
        None
    }
}

/// To the last position of the cell, left of the separator on the right.
pub open spec fn cell_end(m: PlaneModel) -> Option<PlaneModel> {
    let e = next_vert_left(m.grid[m.row], m.col);
    if interior(m.grid, m.row, m.col) && e < m.grid[m.row].len() {
        Some(moved_to(m, m.row, e - 1))
    } else {
        None
    }
}

/// Into the next cell to the right, or to the end of this one at the table's edge.
pub open spec fn cell_right(m: PlaneModel) -> Option<PlaneModel> {
    let e = next_vert_left(m.grid[m.row], m.col);
    if interior(m.grid, m.row, m.col) && e < m.grid[m.row].len() {
        if allowed(m.grid, m.row, e + 1) {
            Some(m.with_cursor(m.row, e + 1))
        } else {
            cell_end(m)
        }
    } else {
        None
    }
}

/// Into the previous cell to the left, or to the start of this one at the table's edge.
pub open spec fn cell_left(m: PlaneModel) -> Option<PlaneModel> {
    let i = prev_vert_right(m.grid[m.row], m.col);
    if interior(m.grid, m.row, m.col) && i >= 0 {
        if allowed(m.grid, m.row, i - 1) {
            Some(m.with_cursor(m.row, i - 1))
        } else {
            cell_start(m)
        }
    } else {
        None
    }
}

/// A row of the table that has at least one interior column.
pub open spec fn inner_row(m: PlaneModel) -> bool {
    1 <= m.row < m.grid.len() - 1 && m.grid[m.row].len() >= 3
}

/// To the first interior position of the row, or to the start of the cell
/// there when that position is a box-drawing glyph.
pub open spec fn table_start(m: PlaneModel) -> Option<PlaneModel> {
    if inner_row(m) {
        if spec_box_drawing(m.grid[m.row][1]) {
            cell_start(m)
        } else {
            Some(m.with_cursor(m.row, 1))
        }
    } else {
        None
    }
}

/// To the last interior position of the row, or to the end of the cell
/// there when that position is a box-drawing glyph.
pub open spec fn table_end(m: PlaneModel) -> Option<PlaneModel> {
    let last = m.grid[m.row].len() - 2;
    if inner_row(m) {
        if spec_box_drawing(m.grid[m.row][last]) {
            cell_end(m)
        } else {
            Some(m.with_cursor(m.row, last))
        }
    } else {
        None
    }
}

/// The first index at or after `j` that holds a vertical line seen from the
/// left, or the length of `s` when there is none.
pub open spec fn next_vert_left(s: Seq<char>, j: int) -> int
    decreases s.len() - j,
{
    if j >= s.len() {
        s.len() as int
    } else if spec_vert_left(s[j]) {
        j
    } else {
        next_vert_left(s, j + 1)
    }
}

/// The first index at or after `j` that a vertical line passes through, or
/// the length of `s` when there is none.
pub open spec fn next_crossing(s: Seq<char>, j: int) -> int
    decreases s.len() - j,
{
    if j >= s.len() {
        s.len() as int
    } else if spec_vert_crossing(s[j]) {
        j
    } else {
        next_crossing(s, j + 1)
    }
}

/// The last index at or before `j` that holds a vertical line seen from the
/// right, or -1 when there is none.
pub open spec fn prev_vert_right(s: Seq<char>, j: int) -> int
    decreases j + 1,
{
    if j < 0 {
        -1
    } else if spec_vert_right(s[j]) {
        j
    } else {
        prev_vert_right(s, j - 1)
    }
}

/// The last position of the cell at `col` before the separator on its right
/// (`col` itself where the row has no such separator).
pub open spec fn last_before_sep(s: Seq<char>, col: int) -> int {
    let e = next_vert_left(s, col);
    if e < s.len() {
        e - 1
    } else {
        col
    }
}

/// The row with one more column: the filler that `spec_filler` gives is put
/// in front of the first crossing at or after `pos`.
pub open spec fn widen_row(t: Seq<char>, pos: int) -> Seq<char> {
    let f = next_crossing(t, pos);
    if pos < t.len() - 1 && f < t.len() {
        t.insert(f, spec_filler(t[f]))
    } else {
        t
    }
}

/// The row with one column less: the glyph just before the first crossing at
/// or after `pos` is taken out.
pub open spec fn narrow_row(t: Seq<char>, pos: int) -> Seq<char> {
    let f = next_crossing(t, pos);
    if pos < t.len() - 1 && 0 < f < t.len() {
        t.remove(f - 1)
    } else {
        t
    }
}

/// Every row in `[lo, hi)` but `skip` widened at `pos`.
pub open spec fn widened(g: Seq<Seq<char>>, pos: int, lo: int, hi: int, skip: int) -> Seq<
    Seq<char>,
> {
    Seq::new(
        g.len(),
        |k: int|
            if lo <= k < hi && k != skip {
                widen_row(g[k], pos)
            } else {
                g[k]
            },
    )
}

/// Every row in `[lo, hi)` narrowed at `pos`.
pub open spec fn narrowed(g: Seq<Seq<char>>, pos: int, lo: int, hi: int) -> Seq<Seq<char>> {
    Seq::new(
        g.len(),
        |k: int|
            if lo <= k < hi {
                narrow_row(g[k], pos)
            } else {
                g[k]
            },
    )
}

/// The row does not need the column before its next separator: either `pos`
/// is a border or a box-drawing glyph of it, or that column holds a space
/// which is not squeezed between two box-drawing glyphs.
pub open spec fn blank_before_sep(t: Seq<char>, pos: int) -> bool {
    let j = next_vert_left(t, pos + 1);
    (1 <= pos < t.len() - 1 && !spec_box_drawing(t[pos])) ==> (j >= t.len() || (t[j - 1] == ' '
        && !spec_box_drawing(t[j - 2])))
}

/// No row of `[lo, hi)` needs the column before its separator after `pos`.
pub open spec fn blank_column(g: Seq<Seq<char>>, pos: int, lo: int, hi: int) -> bool {
    forall|k: int| lo <= k < hi ==> #[trigger] blank_before_sep(g[k], pos)
}

/// The rows `[lo, hi)` that a widening reaches: the cursor's block, or every
/// row when a widened header column would reach past the body's first row.
pub open spec fn insert_range(g: Seq<Seq<char>>, row: int, col: int, iih: int) -> (int, int) {
    if row < iih {
        if last_before_sep(g[row], col) + 1 >= g[iih].len() {
            (0, g.len() as int)
        } else {
            (0, iih)
        }
    } else {
        (iih, g.len() as int)
    }
}

/// The rows `[lo, hi)` that a narrowing reaches: the header block for a
/// cursor in the header; for a cursor in the body, every row when the cursor
/// row is wider than the first row, else the body block.
pub open spec fn delete_range(g: Seq<Seq<char>>, row: int, iih: int) -> (int, int) {
    if row < iih {
        (0, iih)
    } else if g[row].len() > g[0].len() {
        (0, g.len() as int)
    } else {
        (iih, g.len() as int)
    }
}

/// A junction of the header boundary row in its form without a line from below.
pub open spec fn unjoined(ch: char) -> char {
    if ch == '┴' {
        '─'
    } else if ch == '┼' {
        '┬'
    } else if ch == '┤' {
        '┐'
    } else {
        ch
    }
}

/// A glyph of the header boundary row in its form with a line from above.
pub open spec fn joined(ch: char) -> char {
    if ch == '─' {
        '┴'
    } else if ch == '┬' {
        '┼'
    } else if ch == '┐' {
        '┤'
    } else {
        ch
    }
}

/// The boundary row between header and body: every junction unjoined, then the
/// one below the header's right border joined.
pub open spec fn joined_row(t: Seq<char>, ci: int) -> Seq<char> {
    let t1 = Seq::new(t.len(), |i: int| unjoined(t[i]));
    if 0 <= ci < t1.len() {
        t1.update(ci, joined(t1[ci]))
    } else {
        t1
    }
}

/// The grid after join-character maintenance.
pub open spec fn with_joins(g: Seq<Seq<char>>, iih: int) -> Seq<Seq<char>> {
    if 0 < iih < g.len() && g[0].len() > 0 {
        g.update(iih, joined_row(g[iih], g[0].len() - 1))
    } else {
        g
    }
}

/// The grid after a character is typed at a valid cursor position, before
/// the joins are maintained.
pub open spec fn inserted_grid(m: PlaneModel, ch: char) -> Seq<Seq<char>> {
    let s = m.grid[m.row];
    let pos = last_before_sep(s, m.col);
    let e = next_vert_left(s, m.col + 1);
    let s1 = s.insert(m.col, ch);
    if e > m.col + 1 && s[e - 1] == ' ' {
        m.grid.update(m.row, s1.remove(e))
    } else {
        let g1 = m.grid.update(m.row, s1);
        let (lo, hi) = insert_range(g1, m.row, m.col, m.iih);
        widened(g1, pos, lo, hi, m.row)
    }
}

/// The whole effect of typing `ch`.
pub open spec fn after_insert(m: PlaneModel, ch: char) -> PlaneModel {
    if interior(m.grid, m.row, m.col) {
        let g2 = inserted_grid(m, ch);
        let c = if allowed(g2, m.row, m.col + 1) {
            m.col + 1
        } else {
            m.col
        };
        PlaneModel { grid: with_joins(g2, m.iih), col: c, ..m }
    } else {
        m
    }
}

/// The grid after the glyph at `at` in the cursor row is taken out and a space
/// is put before the separator, with the column narrowed where no row of the
/// affected range needs it.
pub open spec fn deleted_grid(m: PlaneModel, at: int) -> Seq<Seq<char>> {
    let s = m.grid[m.row];
    let pos = last_before_sep(s, m.col);
    let g1 = m.grid.update(m.row, s.insert(pos + 1, ' ').remove(at));
    let (lo, hi) = delete_range(g1, m.row, m.iih);
    if blank_column(g1, pos, lo, hi) {
        narrowed(g1, pos, lo, hi)
    } else {
        g1
    }
}

/// The whole effect of deleting the glyph before the cursor.
pub open spec fn after_delete_before(m: PlaneModel) -> PlaneModel {
    if m.col >= 1 && allowed(m.grid, m.row, m.col - 1) {
        let g2 = deleted_grid(m, m.col - 1);
        let c = if allowed(g2, m.row, m.col - 1) {
            m.col - 1
        } else {
            m.col
        };
        PlaneModel { grid: with_joins(g2, m.iih), col: c, ..m }
    } else {
        m
    }
}

/// The whole effect of deleting the glyph under the cursor.
pub open spec fn after_delete(m: PlaneModel) -> PlaneModel {
    if interior(m.grid, m.row, m.col) {
        let g2 = deleted_grid(m, m.col);
        let c = if m.col < g2[m.row].len() && spec_box_drawing(g2[m.row][m.col]) && allowed(
            g2,
            m.row,
            m.col - 1,
        ) {
            m.col - 1
        } else {
            m.col
        };
        PlaneModel { grid: with_joins(g2, m.iih), col: c, ..m }
    } else {
        m
    }
}

/// A row that marks the header: it starts with a left junction or corner
/// and holds the double-line tee that the header boundary rests on.
pub open spec fn header_marker(t: Seq<char>) -> bool {
    &&& t.len() > 0
    &&& (t[0] == '┌' || t[0] == '├')
    &&& exists|i: int| 0 <= i < t.len() && t[i] == '╥'
}

/// The index of the first marker row at or after `i`, or 0 when there is none.
pub open spec fn header_height_from(g: Seq<Seq<char>>, i: int) -> int
    decreases g.len() - i,
{
    if i < 0 || i >= g.len() {
        0
    } else if header_marker(g[i]) {
        i
    } else {
        header_height_from(g, i + 1)
    }
}

/// The header height of a grid: the first marker row, or 0.
pub open spec fn header_height(g: Seq<Seq<char>>) -> int {
    header_height_from(g, 0)
}

/// The trimmed non-empty lines among `ls`, in order.
pub open spec fn kept_lines(ls: Seq<Seq<char>>) -> Seq<Seq<char>>
    decreases ls.len(),
{
    if ls.len() == 0 {
        Seq::empty()
    } else {
        let prev = kept_lines(ls.drop_last());
        let t = crate::text::trimmed_of(ls.last());
        if t.len() > 0 {
            prev.push(t)
        } else {
            prev
        }
    }
}

} // verus!

verus! {

/// Where the search for a vertical line seen from the left can end.
pub proof fn lemma_next_vert_left_bounds(s: Seq<char>, j: int)
    requires
        0 <= j,
    ensures
        j <= next_vert_left(s, j) <= s.len() || (j > s.len() && next_vert_left(s, j) == s.len()),
        next_vert_left(s, j) < s.len() ==> spec_vert_left(s[next_vert_left(s, j)]),
        forall|k: int| j <= k < next_vert_left(s, j) ==> !spec_vert_left(#[trigger] s[k]),
    decreases s.len() - j,
{
    if j < s.len() && !spec_vert_left(s[j]) {
        lemma_next_vert_left_bounds(s, j + 1);
    }
}

/// Where the search for a vertical crossing can end.
pub proof fn lemma_next_crossing_bounds(s: Seq<char>, j: int)
    requires
        0 <= j,
    ensures
        j <= next_crossing(s, j) <= s.len() || (j > s.len() && next_crossing(s, j) == s.len()),
        next_crossing(s, j) < s.len() ==> spec_vert_crossing(s[next_crossing(s, j)]),
        forall|k: int| j <= k < next_crossing(s, j) ==> !spec_vert_crossing(#[trigger] s[k]),
    decreases s.len() - j,
{
    if j < s.len() && !spec_vert_crossing(s[j]) {
        lemma_next_crossing_bounds(s, j + 1);
    }
}

/// Where the backward search for a vertical line seen from the right can end.
pub proof fn lemma_prev_vert_right_bounds(s: Seq<char>, j: int)
    ensures
        -1 <= prev_vert_right(s, j) <= j || j < -1,
    decreases j + 1,
{
    if j >= 0 && !spec_vert_right(s[j]) {
        lemma_prev_vert_right_bounds(s, j - 1);
    }
}

} // verus!

verus! {

/// The cursor has not moved, or rests on a position where it may rest.
pub open spec fn cursor_rests(before: PlaneModel, after: PlaneModel) -> bool {
    (after.row == before.row && after.col == before.col) || allowed(after.grid, after.row, after.col)
}

/// Join maintenance changes only the glyphs of the boundary row, and each
/// into a box-drawing glyph exactly where there was one.
pub proof fn lemma_joins_shape(g: Seq<Seq<char>>, iih: int)
    ensures
        with_joins(g, iih).len() == g.len(),
        forall|k: int| 0 <= k < g.len() ==> #[trigger] with_joins(g, iih)[k].len() == g[k].len(),
        forall|k: int| 0 <= k < g.len() && k != iih ==> #[trigger] with_joins(g, iih)[k] == g[k],
        forall|k: int, c: int|
            0 <= k < g.len() && 0 <= c < g[k].len() ==> spec_box_drawing(
                #[trigger] with_joins(g, iih)[k][c],
            ) == spec_box_drawing(g[k][c]),
{
    if 0 < iih < g.len() && g[0].len() > 0 {
        let t = g[iih];
        let ci = g[0].len() - 1;
        let t1 = Seq::new(t.len(), |i: int| unjoined(t[i]));
        assert forall|c: int| 0 <= c < t.len() implies spec_box_drawing(
            #[trigger] joined_row(t, ci)[c],
        ) == spec_box_drawing(t[c]) by {
            assert(spec_box_drawing(unjoined(t[c])) == spec_box_drawing(t[c]));
            assert(spec_box_drawing(joined(t1[c])) == spec_box_drawing(t1[c]));
        }
    }
}

} // verus!

verus! {

/// A typed character in the header widens a column up to or past the right
/// end of the body's first row, so the widening reaches every row.
pub open spec fn header_escape(m: PlaneModel, ch: char) -> bool {
    last_before_sep(m.grid[m.row].insert(m.col, ch), m.col) + 1 >= m.grid[m.iih].len()
}

/// The first vertical line seen from the left at or after `j` is at `e`.
pub proof fn lemma_next_vert_left_is(s: Seq<char>, j: int, e: int)
    requires
        0 <= j <= e < s.len(),
        spec_vert_left(s[e]),
        forall|k: int| j <= k < e ==> !spec_vert_left(#[trigger] s[k]),
    ensures
        next_vert_left(s, j) == e,
    decreases e - j,
{
    if j < e {
        lemma_next_vert_left_is(s, j + 1, e);
    }
}

} // verus!
