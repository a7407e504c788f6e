//! A plane of characters holding a table, with a cursor and the edits.

use vstd::prelude::*;

use crate::glyph::{
    filler, is_box_drawing, is_horz_line_glyph, is_vert_crossing, is_vert_left,
    is_vert_line_glyph, is_vert_right,
};
use crate::model::{
    after_delete, after_delete_before, after_insert, allowed, blank_before_sep, blank_column,
    cell_end, cell_left, cell_right, cell_start, cursor_rests, delete_range, deleted_grid,
    header_height, header_height_from, header_marker, horz_line_at, insert_range, inserted_grid,
    interior, joined, joined_row, kept_lines, last_before_sep, lemma_next_vert_left_bounds,
    lemma_prev_vert_right_bounds, moved_to, narrow_row, narrowed, next_crossing, next_vert_left,
    PlaneModel, prev_vert_right, sat, stepped, table_end, table_start, unjoined, vert_line_at,
    widen_row, widened, with_joins,
};
use crate::text::{lines_of, split_lines, trim_edges};

verus! {

/// Row of characters in columns.
pub struct Row {
    /// Characters in a row.
    pub columns: Vec<char>,
}

impl Row {
    /// Creates a new row with specified characters.
    pub fn new(columns: Vec<char>) -> (r: Self)
        ensures
            r.columns@ == columns@,
    {
        Row { columns }
    }
}

/// The characters of each row.
pub open spec fn grid_of(rows: Seq<Row>) -> Seq<Seq<char>> {
    rows.map_values(|r: Row| r.columns@)
}

/// Plane containing rows of characters.
pub struct Plane {
    /// Rows in plane.
    rows: Vec<Row>,
    /// Current vertical cursor position (row index).
    row: usize,
    /// Current horizontal cursor position (column index).
    col: usize,
    /// Information item height (0 when not present).
    iih: usize,
}

impl View for Plane {
    type V = PlaneModel;

    closed spec fn view(&self) -> PlaneModel {
        PlaneModel {
            grid: grid_of(self.rows@),
            row: self.row as int,
            col: self.col as int,
            iih: self.iih as int,
        }
    }
}

/// Kinds of edits, which differ in the rows that a change of width reaches.
enum EditKind {
    Insert,
    Delete,
}

/// Calculates the height of the information item cell at the beginning of the decision table.
fn information_item_height(rows: &Vec<Row>) -> (r: usize)
    ensures
        r == header_height(grid_of(rows@)),
{
    let ghost g = grid_of(rows@);
    let mut i: usize = 0;
    while i < rows.len()
        invariant
            g == grid_of(rows@),
            i <= rows.len(),
            header_height(g) == header_height_from(g, i as int),
        decreases rows.len() - i,
    {
        let columns = &rows[i].columns;
        assert(columns@ == g[i as int]);
        if columns.len() > 0 && (columns[0] == '┌' || columns[0] == '├') {
            let mut j: usize = 0;
            while j < columns.len()
                invariant
                    g == grid_of(rows@),
                    i < rows.len(),
                    header_height(g) == header_height_from(g, i as int),
                    columns@ == g[i as int],
                    columns@.len() > 0 && (columns@[0] == '┌' || columns@[0] == '├'),
                    j <= columns.len(),
                    forall|k: int| 0 <= k < j ==> columns@[k] != '╥',
                decreases columns.len() - j,
            {
                if columns[j] == '╥' {
                    assert(header_marker(g[i as int]));
                    return i;
                }
                j += 1;
            }
        }
        assert(!header_marker(g[i as int]));
        i += 1;
    }
    0
}

impl Plane {
    /// Well-formed: the header height names a row, or is zero.
    pub open spec fn wf(&self) -> bool {
        self@.wf()
    }

    /// Creates a plane from text: every non-empty trimmed line becomes a row.
    pub fn new(content: &str) -> (r: Self)
        ensures
            r.wf(),
            r@.grid == kept_lines(lines_of(content@)),
            r@.row == 1,
            r@.col == 1,
            r@.iih == header_height(r@.grid),
    {
        let lines = split_lines(content);
        let mut rows: Vec<Row> = Vec::new();
        let mut i: usize = 0;
        while i < lines.len()
            invariant
                i <= lines.len(),
                lines@.len() == lines_of(content@).len(),
                forall|k: int| 0 <= k < lines@.len() ==> #[trigger] lines@[k]@ == lines_of(
                    content@,
                )[k],
                grid_of(rows@) == kept_lines(lines_of(content@).take(i as int)),
            decreases lines.len() - i,
        {
            let line = trim_edges(lines[i].as_str());
            let ghost ls = lines_of(content@);
            assert(ls.take(i + 1).drop_last() == ls.take(i as int));
            assert(ls.take(i + 1).last() == ls[i as int]);
            let ghost before = rows@;
            assert(lines[i as int]@ == ls[i as int]);
            if !line.is_empty() {
                let mut columns: Vec<char> = Vec::new();
                for ch in it: line.chars()
                    invariant
                        columns@ == it.seq().take(it.index() as int),
                {
                    columns.push(ch);
                }
                proof {
                    vstd::string::axiom_spec_iter(line);
                }
                assert(columns@ == line@);
                assert(line@ == crate::text::trimmed_of(ls[i as int]));
                rows.push(Row::new(columns));
                assert(grid_of(rows@) =~= grid_of(before).push(columns@));
            }
            i += 1;
        }
        assert(lines_of(content@).take(lines.len() as int) == lines_of(content@));
        let iih = information_item_height(&rows);
        proof {
            let g = grid_of(rows@);
            assert(iih == 0 || iih < g.len()) by {
                lemma_header_height_bound(g, 0);
            }
        }
        Plane { rows, row: 1, col: 1, iih }
    }

    /// The model's rows are the rows' characters, and their lengths fit `usize`.
    proof fn lemma_view(&self)
        ensures
            self@.grid.len() == self.rows@.len(),
            self@.grid.len() <= usize::MAX,
            forall|k: int|
                0 <= k < self.rows@.len() ==> #[trigger] self@.grid[k] == self.rows@[k].columns@
                    && self@.grid[k].len() <= usize::MAX,
    {
        assert forall|k: int| 0 <= k < self.rows@.len() implies #[trigger] self@.grid[k]
            == self.rows@[k].columns@ && self@.grid[k].len() <= usize::MAX by {
            assert(self.rows@[k].columns@.len() == self.rows@[k].columns.len());
        }
        assert(self.rows@.len() == self.rows.len());
    }

    /// Returns `true` if the current cursor position is valid.
    pub fn is_valid_cursor_pos(&self) -> (r: bool)
        ensures
            r == interior(self@.grid, self@.row, self@.col),
    {
        self.row >= 1 && self.row < self.rows.len() && self.row + 1 < self.rows.len() && self.col
            >= 1 && self.col < self.rows[self.row].columns.len() && self.col + 1 < self.rows[
            self.row].columns.len()
    }

    /// Moves cursor up.
    pub fn cursor_move_up(&mut self) -> (r: bool)
        ensures
            cursor_rests(old(self)@, final(self)@),
            match stepped(old(self)@, -1, 0) {
                Some(m) => r && final(self)@ == m,
                None => !r && final(self)@ == old(self)@,
            },
    {
        proof {
            self.lemma_view();
        }
        if self.is_allowed_position(-1, 0) {
            self.cursor_move(-1, 0);
            return true;
        }
        if self.is_horz_line(-1, 0) && self.is_allowed_position(-2, 0) {
            self.cursor_move(-2, 0);
            return true;
        }
        false
    }

    /// Moves cursor down.
    pub fn cursor_move_down(&mut self) -> (r: bool)
        ensures
            cursor_rests(old(self)@, final(self)@),
            match stepped(old(self)@, 1, 0) {
                Some(m) => r && final(self)@ == m,
                None => !r && final(self)@ == old(self)@,
            },
    {
        proof {
            self.lemma_view();
        }
        if self.is_allowed_position(1, 0) {
            self.row += 1;
            return true;
        }
        if self.is_horz_line(1, 0) && self.is_allowed_position(2, 0) {
            self.row += 2;
            return true;
        }
        false
    }

    /// Moves cursor left.
    pub fn cursor_move_left(&mut self) -> (r: bool)
        ensures
            cursor_rests(old(self)@, final(self)@),
            match stepped(old(self)@, 0, -1) {
                Some(m) => r && final(self)@ == m,
                None => !r && final(self)@ == old(self)@,
            },
    {
        proof {
            self.lemma_view();
        }
        if self.is_allowed_position(0, -1) {
            self.col -= 1;
            return true;
        }
        if self.is_vert_line(0, -1) && self.is_allowed_position(0, -2) {
            self.col -= 2;
            return true;
        }
        false
    }

    /// Moves cursor right.
    pub fn cursor_move_right(&mut self) -> (r: bool)
        ensures
            cursor_rests(old(self)@, final(self)@),
            match stepped(old(self)@, 0, 1) {
                Some(m) => r && final(self)@ == m,
                None => !r && final(self)@ == old(self)@,
            },
    {
        proof {
            self.lemma_view();
        }
        if self.is_allowed_position(0, 1) {
            self.col += 1;
            return true;
        }
        if self.is_vert_line(0, 1) && self.is_allowed_position(0, 2) {
            self.col += 2;
            return true;
        }
        false
    }

    /// Places cursor at the first character in the cell (same row).
    pub fn cursor_move_cell_start(&mut self) -> (r: bool)
        ensures
            cursor_rests(old(self)@, final(self)@),
            match cell_start(old(self)@) {
                Some(m) => r && final(self)@ == m,
                None => !r && final(self)@ == old(self)@,
            },
    {
        proof {
            self.lemma_view();
        }
        if self.is_valid_cursor_pos() {
            if let Some(i) = self.vert_line_index_left() {
                proof {
                    lemma_prev_vert_right_bounds(self@.grid[self@.row], self@.col);
                }
                self.cursor_move_to(self.row, i + 1);
                return true;
            }
        }
        false
    }

    /// Places cursor at the last character in the cell (same row).
    pub fn cursor_move_cell_end(&mut self) -> (r: bool)
        ensures
            cursor_rests(old(self)@, final(self)@),
            match cell_end(old(self)@) {
                Some(m) => r && final(self)@ == m,
                None => !r && final(self)@ == old(self)@,
            },
    {
        proof {
            self.lemma_view();
        }
        if self.is_valid_cursor_pos() {
            if let Some(e) = self.vert_line_index_right() {
                proof {
                    lemma_next_vert_left_bounds(self@.grid[self@.row], self@.col);
                }
                self.cursor_move_to(self.row, e - 1);
                return true;
            }
        }
        false
    }

    /// Places cursor at the first character in the decision table (same row).
    pub fn cursor_move_table_start(&mut self) -> (r: bool)
        ensures
            cursor_rests(old(self)@, final(self)@),
            match table_start(old(self)@) {
                Some(m) => r && final(self)@ == m,
                None => !r && final(self)@ == old(self)@,
            },
    {
        proof {
            self.lemma_view();
        }
        if self.row >= 1 && self.row < self.rows.len() && self.row + 1 < self.rows.len()
            && self.rows[self.row].columns.len() >= 3 {
            return if is_box_drawing(self.rows[self.row].columns[1]) {
                self.cursor_move_cell_start()
            } else {
                self.col = 1;
                true
            };
        }
        false
    }

    /// Places cursor at the last character in the decision table (same row).
    pub fn cursor_move_table_end(&mut self) -> (r: bool)
        ensures
            cursor_rests(old(self)@, final(self)@),
            match table_end(old(self)@) {
                Some(m) => r && final(self)@ == m,
                None => !r && final(self)@ == old(self)@,
            },
    {
        proof {
            self.lemma_view();
        }
        if self.row >= 1 && self.row < self.rows.len() && self.row + 1 < self.rows.len()
            && self.rows[self.row].columns.len() >= 3 {
            let index = self.rows[self.row].columns.len() - 2;
            return if is_box_drawing(self.rows[self.row].columns[index]) {
                self.cursor_move_cell_end()
            } else {
                self.col = index;
                true
            };
        }
        false
    }

    /// Places cursor at the first character in the next cell to the right.
    pub fn cursor_move_cell_right(&mut self) -> (r: bool)
        ensures
            cursor_rests(old(self)@, final(self)@),
            match cell_right(old(self)@) {
                Some(m) => r && final(self)@ == m,
                None => !r && final(self)@ == old(self)@,
            },
    {
        proof {
            self.lemma_view();
        }
        if self.is_valid_cursor_pos() {
            if let Some(e) = self.vert_line_index_right() {
                return if self.is_allowed_at(self.row, e + 1) {
                    self.col = e + 1;
                    true
                } else {
                    self.cursor_move_cell_end()
                };
            }
        }
        false
    }

    /// Places cursor at the last character in the next cell to the left.
    pub fn cursor_move_cell_left(&mut self) -> (r: bool)
        ensures
            cursor_rests(old(self)@, final(self)@),
            match cell_left(old(self)@) {
                Some(m) => r && final(self)@ == m,
                None => !r && final(self)@ == old(self)@,
            },
    {
        proof {
            self.lemma_view();
        }
        if self.is_valid_cursor_pos() {
            if let Some(i) = self.vert_line_index_left() {
                return if i >= 1 && self.is_allowed_at(self.row, i - 1) {
                    self.col = i - 1;
                    true
                } else {
                    self.cursor_move_cell_start()
                };
            }
        }
        false
    }

    /// Inserts a character at the current position.
    pub fn insert_char(&mut self, ch: char)
        requires
            old(self).wf(),
        ensures
            cursor_rests(old(self)@, final(self)@),
            final(self).wf(),
            final(self)@ == after_insert(old(self)@, ch),
    {
        proof {
            self.lemma_view();
        }
        if self.is_valid_cursor_pos() {
            let pos = self.last_position_before_vert_line();
            let (found, offset) = self.is_whitespace_before_vert_line();
            let row = self.row;
            let col = self.col;
            let ghost m = self@;
            let mut columns = self.replace_row(row, Vec::new());
            columns.insert(col, ch);
            if found {
                columns.remove(col + offset + 1);
            }
            self.replace_row(row, columns);
            if !found {
                self.insert_column_before_vert_line(pos);
            }
            assert(self@.grid == inserted_grid(m, ch));
            self.cursor_move(0, 1);
            self.update_joins();
        }
    }

    /// Deletes a character placed *before* the cursor.
    pub fn delete_char_before(&mut self)
        requires
            old(self).wf(),
        ensures
            cursor_rests(old(self)@, final(self)@),
            final(self).wf(),
            final(self)@ == after_delete_before(old(self)@),
    {
        proof {
            self.lemma_view();
        }
        if self.is_allowed_position(0, -1) {
            let ghost m = self@;
            let pos = self.last_position_before_vert_line();
            self.shift_left_from(pos, self.col - 1);
            if self.is_whitespace_column_before_vert_line(pos) {
                self.delete_column_before_vert_line(pos);
            }
            assert(self@.grid == deleted_grid(m, m.col - 1));
            self.cursor_move(0, -1);
            self.update_joins();
        }
    }

    /// Deletes a character placed *under* the cursor.
    pub fn delete_char(&mut self)
        requires
            old(self).wf(),
        ensures
            cursor_rests(old(self)@, final(self)@),
            final(self).wf(),
            final(self)@ == after_delete(old(self)@),
    {
        proof {
            self.lemma_view();
        }
        if self.is_valid_cursor_pos() {
            let ghost m = self@;
            let pos = self.last_position_before_vert_line();
            self.shift_left_from(pos, self.col);
            if self.is_whitespace_column_before_vert_line(pos) {
                self.delete_column_before_vert_line(pos);
            }
            assert(self@.grid == deleted_grid(m, m.col));
            proof {
                self.lemma_view();
            }
            let row = self.row;
            let col = self.col;
            if col < self.rows[row].columns.len() && is_box_drawing(self.rows[row].columns[col]) {
                self.cursor_move(0, -1);
            }
            self.update_joins();
        }
    }

    /// Takes the glyph at `at` out of the cursor row and puts a space after `pos`.
    fn shift_left_from(&mut self, pos: usize, at: usize)
        requires
            old(self).wf(),
            old(self)@.row < old(self)@.grid.len(),
            pos < old(self)@.grid[old(self)@.row].len(),
            at <= old(self)@.grid[old(self)@.row].len(),
        ensures
            final(self)@ == old(self)@.with_grid(
                old(self)@.grid.update(
                    old(self)@.row,
                    old(self)@.grid[old(self)@.row].insert(pos + 1, ' ').remove(at as int),
                ),
            ),
    {
        proof {
            self.lemma_view();
        }
        let row = self.row;
        let mut columns = self.replace_row(row, Vec::new());
        columns.insert(pos + 1, ' ');
        columns.remove(at);
        let ghost cols = columns@;
        self.replace_row(row, columns);
        assert(self@.grid =~= old(self)@.grid.update(row as int, cols));
    }

    /// Puts `columns` in place of row `k`, and returns what was there.
    fn replace_row(&mut self, k: usize, columns: Vec<char>) -> (r: Vec<char>)
        requires
            k < old(self)@.grid.len(),
        ensures
            r@ == old(self)@.grid[k as int],
            final(self)@ == old(self)@.with_grid(old(self)@.grid.update(k as int, columns@)),
    {
        proof {
            self.lemma_view();
        }
        let mut row = Row { columns };
        self.rows.set_and_swap(k, &mut row);
        assert(self@.grid =~= old(self)@.grid.update(k as int, columns@));
        row.columns
    }

    /// Updates the join character between the information item name cell and
    /// the body of the decision table.
    fn update_joins(&mut self)
        requires
            old(self).wf(),
        ensures
            final(self)@ == old(self)@.with_grid(with_joins(old(self)@.grid, old(self)@.iih)),
    {
        proof {
            self.lemma_view();
        }
        if self.iih > 0 && self.rows[0].columns.len() > 0 {
            let col_index = self.rows[0].columns.len() - 1;
            let iih = self.iih;
            let mut columns = self.replace_row(iih, Vec::new());
            let ghost t = columns@;
            let ghost mid = self@;
            let mut i: usize = 0;
            while i < columns.len()
                invariant
                    self@ == mid,
                    columns@.len() == t.len(),
                    forall|x: int| 0 <= x < i ==> columns@[x] == unjoined(t[x]),
                    forall|x: int| i <= x < t.len() ==> columns@[x] == t[x],
                decreases columns.len() - i,
            {
                let ch = unjoin_glyph(columns[i]);
                columns.set(i, ch);
                i += 1;
            }
            assert(columns@ =~= Seq::new(t.len(), |x: int| unjoined(t[x])));
            if col_index < columns.len() {
                let ch = join_glyph(columns[col_index]);
                columns.set(col_index, ch);
            }
            let ghost cols = columns@;
            assert(cols =~= joined_row(t, col_index as int));
            self.replace_row(iih, columns);
            assert(self@.grid =~= old(self)@.grid.update(iih as int, cols));
        }
    }

    /// Returns the position of the last character before the vertical line.
    fn last_position_before_vert_line(&self) -> (r: usize)
        requires
            self@.row < self@.grid.len(),
            self@.col >= 1,
        ensures
            r == last_before_sep(self@.grid[self@.row], self@.col),
    {
        proof {
            self.lemma_view();
            lemma_next_vert_left_bounds(self@.grid[self@.row], self@.col);
        }
        let columns = &self.rows[self.row].columns;
        let e = find_vert_left(columns, self.col);
        if e < columns.len() {
            e - 1
        } else {
            self.col
        }
    }

    /// Returns whether the cursor row has a space just before the vertical
    /// line to the right of the cursor, and the number of glyphs between the
    /// cursor and that line.
    fn is_whitespace_before_vert_line(&self) -> (r: (bool, usize))
        requires
            interior(self@.grid, self@.row, self@.col),
        ensures
            ({
                let s = self@.grid[self@.row];
                let e = next_vert_left(s, self@.col + 1);
                &&& r.0 == (e > self@.col + 1 && s[e - 1] == ' ')
                &&& r.1 == e - self@.col - 1
                &&& self@.col + 1 <= e <= s.len()
            }),
    {
        proof {
            self.lemma_view();
            lemma_next_vert_left_bounds(self@.grid[self@.row], self@.col + 1);
        }
        let columns = &self.rows[self.row].columns;
        let e = find_vert_left(columns, self.col + 1);
        (e > self.col + 1 && columns[e - 1] == ' ', e - self.col - 1)
    }

    /// Returns the rows `[lo, hi)` that a change of width reaches.
    fn affected_rows(&self, kind: EditKind) -> (r: (usize, usize))
        requires
            self.wf(),
            self@.row < self@.grid.len(),
            self@.col >= 1,
            self@.col < self@.grid[self@.row].len(),
        ensures
            ({
                let (lo, hi) = match kind {
                    EditKind::Insert => insert_range(self@.grid, self@.row, self@.col, self@.iih),
                    EditKind::Delete => delete_range(self@.grid, self@.row, self@.iih),
                };
                r.0 == lo && r.1 == hi
            }),
            r.0 <= r.1 <= self@.grid.len(),
    {
        proof {
            self.lemma_view();
        }
        if self.row < self.iih {
            match kind {
                EditKind::Insert => {
                    let pos = self.last_position_before_vert_line();
                    proof {
                        lemma_next_vert_left_bounds(self@.grid[self@.row], self@.col);
                        assert(pos < self@.grid[self@.row].len());
                    }
                    if pos + 1 >= self.rows[self.iih].columns.len() {
                        (0, self.rows.len())
                    } else {
                        (0, self.iih)
                    }
                },
                EditKind::Delete => (0, self.iih),
            }
        } else {
            match kind {
                EditKind::Insert => (self.iih, self.rows.len()),
                EditKind::Delete => {
                    if self.rows[self.row].columns.len() > self.rows[0].columns.len() {
                        (0, self.rows.len())
                    } else {
                        (self.iih, self.rows.len())
                    }
                },
            }
        }
    }

    /// Widens the column before the next vertical line after `pos` by one,
    /// in every affected row but the cursor row.
    fn insert_column_before_vert_line(&mut self, pos: usize)
        requires
            old(self).wf(),
            old(self)@.row < old(self)@.grid.len(),
            old(self)@.col >= 1,
            old(self)@.col < old(self)@.grid[old(self)@.row].len(),
        ensures
            ({
                let m = old(self)@;
                let (lo, hi) = insert_range(m.grid, m.row, m.col, m.iih);
                final(self)@ == m.with_grid(widened(m.grid, pos as int, lo, hi, m.row))
            }),
    {
        let (lo, hi) = self.affected_rows(EditKind::Insert);
        let ghost m = self@;
        assert(widened(m.grid, pos as int, lo as int, lo as int, m.row) =~= m.grid);
        let mut k = lo;
        while k < hi
            invariant
                lo <= k <= hi <= m.grid.len(),
                self@ == m.with_grid(widened(m.grid, pos as int, lo as int, k as int, m.row)),
            decreases hi - k,
        {
            if k != self.row {
                let mut columns = self.replace_row(k, Vec::new());
                let ghost t = columns@;
                if pos < columns.len() && pos + 1 < columns.len() {
                    let f = find_crossing(&columns, pos);
                    if f < columns.len() {
                        let ch = filler(columns[f]);
                        columns.insert(f, ch);
                    }
                }
                assert(columns@ == widen_row(t, pos as int));
                self.replace_row(k, columns);
            }
            assert(self@.grid =~= widened(m.grid, pos as int, lo as int, k + 1, m.row));
            k += 1;
        }
    }

    /// Returns `true` if no affected row needs the column before the next
    /// vertical line after `pos`.
    fn is_whitespace_column_before_vert_line(&self, pos: usize) -> (r: bool)
        requires
            self.wf(),
            self@.row < self@.grid.len(),
            self@.col >= 1,
            self@.col < self@.grid[self@.row].len(),
        ensures
            ({
                let (lo, hi) = delete_range(self@.grid, self@.row, self@.iih);
                r == blank_column(self@.grid, pos as int, lo, hi)
            }),
    {
        proof {
            self.lemma_view();
        }
        let (lo, hi) = self.affected_rows(EditKind::Delete);
        assert(lo == delete_range(self@.grid, self@.row, self@.iih).0);
        assert(hi == delete_range(self@.grid, self@.row, self@.iih).1);
        let mut k = lo;
        while k < hi
            invariant
                lo <= k <= hi <= self@.grid.len(),
                lo == delete_range(self@.grid, self@.row, self@.iih).0,
                hi == delete_range(self@.grid, self@.row, self@.iih).1,
                forall|x: int| lo <= x < k ==> #[trigger] blank_before_sep(self@.grid[x], pos as int),
            decreases hi - k,
        {
            let columns = &self.rows[k].columns;
            if pos >= 1 && pos < columns.len() && pos + 1 < columns.len() && !is_box_drawing(
                columns[pos],
            ) {
                let j = find_vert_left(columns, pos + 1);
                proof {
                    lemma_next_vert_left_bounds(columns@, pos + 1);
                }
                if j < columns.len() {
                    if columns[j - 1] != ' ' || is_box_drawing(columns[j - 2]) {
                        assert(!blank_before_sep(self@.grid[k as int], pos as int));
                        assert(!blank_column(self@.grid, pos as int, lo as int, hi as int));
                        return false;
                    }
                }
            }
            assert(blank_before_sep(self@.grid[k as int], pos as int));
            k += 1;
        }
        true
    }

    /// Narrows the column before the next vertical line after `pos` by one,
    /// in every affected row.
    fn delete_column_before_vert_line(&mut self, pos: usize)
        requires
            old(self).wf(),
            old(self)@.row < old(self)@.grid.len(),
            old(self)@.col >= 1,
            old(self)@.col < old(self)@.grid[old(self)@.row].len(),
        ensures
            ({
                let m = old(self)@;
                let (lo, hi) = delete_range(m.grid, m.row, m.iih);
                final(self)@ == m.with_grid(narrowed(m.grid, pos as int, lo, hi))
            }),
    {
        let (lo, hi) = self.affected_rows(EditKind::Delete);
        let ghost m = self@;
        assert(narrowed(m.grid, pos as int, lo as int, lo as int) =~= m.grid);
        let mut k = lo;
        while k < hi
            invariant
                lo <= k <= hi <= m.grid.len(),
                self@ == m.with_grid(narrowed(m.grid, pos as int, lo as int, k as int)),
            decreases hi - k,
        {
            let mut columns = self.replace_row(k, Vec::new());
            let ghost t = columns@;
            if pos < columns.len() && pos + 1 < columns.len() {
                let f = find_crossing(&columns, pos);
                if f > 0 && f < columns.len() {
                    columns.remove(f - 1);
                }
            }
            assert(columns@ == narrow_row(t, pos as int));
            self.replace_row(k, columns);
            assert(self@.grid =~= narrowed(m.grid, pos as int, lo as int, k + 1));
            k += 1;
        }
    }

    /// Moves the cursor by the offsets given, where the cursor may rest there.
    pub fn cursor_move(&mut self, row_offset: i32, col_offset: i32)
        ensures
            cursor_rests(old(self)@, final(self)@),
            final(self)@ == moved_to(
                old(self)@,
                sat(old(self)@.row, row_offset as int),
                sat(old(self)@.col, col_offset as int),
            ),
    {
        let (row, col) = self.adjusted_position(row_offset, col_offset);
        self.cursor_move_to(row, col);
    }

    /// Moves the cursor to `(row, col)`, where the cursor may rest there.
    fn cursor_move_to(&mut self, row: usize, col: usize)
        ensures
            final(self)@ == moved_to(old(self)@, row as int, col as int),
    {
        if self.is_allowed_at(row, col) {
            self.row = row;
            self.col = col;
        }
    }

    /// Returns `true` when the character at the specified offset is a horizontal line.
    fn is_horz_line(&self, row_offset: i32, col_offset: i32) -> (r: bool)
        ensures
            r == horz_line_at(
                self@.grid,
                sat(self@.row, row_offset as int),
                sat(self@.col, col_offset as int),
            ),
    {
        let (r, c) = self.adjusted_position(row_offset, col_offset);
        r < self.rows.len() && c < self.rows[r].columns.len() && is_horz_line_glyph(
            self.rows[r].columns[c],
        )
    }

    /// Returns `true` when the character at the specified offset is a vertical line.
    fn is_vert_line(&self, row_offset: i32, col_offset: i32) -> (r: bool)
        ensures
            r == vert_line_at(
                self@.grid,
                sat(self@.row, row_offset as int),
                sat(self@.col, col_offset as int),
            ),
    {
        let (r, c) = self.adjusted_position(row_offset, col_offset);
        r < self.rows.len() && c < self.rows[r].columns.len() && is_vert_line_glyph(
            self.rows[r].columns[c],
        )
    }

    /// Returns `true` when the cursor may rest at the specified offset.
    fn is_allowed_position(&self, row_offset: i32, col_offset: i32) -> (r: bool)
        ensures
            r == allowed(
                self@.grid,
                sat(self@.row, row_offset as int),
                sat(self@.col, col_offset as int),
            ),
    {
        let (r, c) = self.adjusted_position(row_offset, col_offset);
        self.is_allowed_at(r, c)
    }

    /// Returns `true` when the cursor may rest at `(r, c)`.
    fn is_allowed_at(&self, r: usize, c: usize) -> (res: bool)
        ensures
            res == allowed(self@.grid, r as int, c as int),
    {
        r >= 1 && r < self.rows.len() && r + 1 < self.rows.len() && c >= 1 && c
            < self.rows[r].columns.len() && c + 1 < self.rows[r].columns.len() && !is_box_drawing(
            self.rows[r].columns[c],
        )
    }

    /// Calculates a new position according the specified row and column offset.
    fn adjusted_position(&self, row_offset: i32, col_offset: i32) -> (r: (usize, usize))
        ensures
            r.0 == sat(self@.row, row_offset as int),
            r.1 == sat(self@.col, col_offset as int),
    {
        (offset_index(self.row, row_offset), offset_index(self.col, col_offset))
    }

    /// Returns the index of the vertical line to the right of the cursor (or under it).
    fn vert_line_index_right(&self) -> (r: Option<usize>)
        requires
            interior(self@.grid, self@.row, self@.col),
        ensures
            match r {
                Some(e) => e == next_vert_left(self@.grid[self@.row], self@.col) && e
                    < self@.grid[self@.row].len(),
                None => next_vert_left(self@.grid[self@.row], self@.col)
                    >= self@.grid[self@.row].len(),
            },
    {
        proof {
            self.lemma_view();
        }
        let columns = &self.rows[self.row].columns;
        let e = find_vert_left(columns, self.col);
        if e < columns.len() {
            Some(e)
        } else {
            None
        }
    }

    /// Returns the index of the vertical line to the left of the cursor (or under it).
    fn vert_line_index_left(&self) -> (r: Option<usize>)
        requires
            interior(self@.grid, self@.row, self@.col),
        ensures
            match r {
                Some(i) => i == prev_vert_right(self@.grid[self@.row], self@.col),
                None => prev_vert_right(self@.grid[self@.row], self@.col) == -1,
            },
    {
        proof {
            self.lemma_view();
        }
        let columns = &self.rows[self.row].columns;
        let ghost s = self@.grid[self@.row];
        assert(columns@ == s);
        let mut j: usize = self.col + 1;
        while j > 0
            invariant
                columns@ == s,
                s == self@.grid[self@.row],
                j <= self.col + 1,
                self.col < s.len(),
                prev_vert_right(s, self.col as int) == prev_vert_right(s, j - 1),
            decreases j,
        {
            if is_vert_right(columns[j - 1]) {
                assert(prev_vert_right(s, (j - 1) as int) == (j - 1) as int);
                return Some(j - 1);
            }
            j -= 1;
        }
        None
    }

    /// Returns a reference to rows.
    pub fn rows(&self) -> (r: &[Row])
        ensures
            grid_of(r@) == self@.grid,
    {
        self.rows.as_slice()
    }

    /// Returns the vertical position of the cursor in plane coordinates.
    pub fn cursor_row(&self) -> (r: usize)
        ensures
            r == self@.row,
    {
        self.row
    }

    /// Returns the horizontal position of the cursor in plane coordinates.
    pub fn cursor_col(&self) -> (r: usize)
        ensures
            r == self@.col,
    {
        self.col
    }
}

/// The form of a header boundary glyph without a line from below.
fn unjoin_glyph(ch: char) -> (r: char)
    ensures
        r == unjoined(ch),
{
    match ch {
        '┴' => '─',
        '┼' => '┬',
        '┤' => '┐',
        _ => ch,
    }
}

/// The form of a header boundary glyph with a line from above.
fn join_glyph(ch: char) -> (r: char)
    ensures
        r == joined(ch),
{
    match ch {
        '─' => '┴',
        '┬' => '┼',
        '┐' => '┤',
        _ => ch,
    }
}

/// `x` moved by `d`, held within the range of `usize`.
fn offset_index(x: usize, d: i32) -> (r: usize)
    ensures
        r == sat(x as int, d as int),
{
    if d >= 0 {
        let u = d as usize;
        if x > usize::MAX - u {
            usize::MAX
        } else {
            x + u
        }
    } else {
        let u = (0i64 - d as i64) as usize;
        if x < u {
            0
        } else {
            x - u
        }
    }
}

/// The first index at or after `from` holding a vertical line seen from the left.
fn find_vert_left(s: &Vec<char>, from: usize) -> (r: usize)
    ensures
        r == next_vert_left(s@, from as int),
{
    let mut j = from;
    while j < s.len()
        invariant
            from <= j,
            next_vert_left(s@, from as int) == next_vert_left(s@, j as int),
        decreases s.len() - j,
    {
        if is_vert_left(s[j]) {
            return j;
        }
        j += 1;
    }
    s.len()
}

/// The first index at or after `from` that a vertical line passes through.
fn find_crossing(s: &Vec<char>, from: usize) -> (r: usize)
    ensures
        r == next_crossing(s@, from as int),
{
    let mut j = from;
    while j < s.len()
        invariant
            from <= j,
            next_crossing(s@, from as int) == next_crossing(s@, j as int),
        decreases s.len() - j,
    {
        if is_vert_crossing(s[j]) {
            return j;
        }
        j += 1;
    }
    s.len()
}

/// The header height is 0 or names a row.
proof fn lemma_header_height_bound(g: Seq<Seq<char>>, i: int)
    requires
        0 <= i,
    ensures
        header_height_from(g, i) == 0 || i <= header_height_from(g, i) < g.len(),
    decreases g.len() - i,
{
    if i < g.len() && !header_marker(g[i]) {
        lemma_header_height_bound(g, i + 1);
    }
}

} // verus!
