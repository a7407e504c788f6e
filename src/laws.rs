//! Properties of the edits that relate several operations or hold of every state.

use vstd::prelude::*;

use crate::glyph::{spec_box_drawing, spec_vert_crossing, spec_vert_left};
use crate::model::{
    after_delete, after_delete_before, after_insert, allowed, delete_range, deleted_grid,
    insert_range, inserted_grid, header_escape, interior,
    lemma_joins_shape, lemma_next_crossing_bounds, lemma_next_vert_left_bounds,
    lemma_next_vert_left_is, joined, joined_row, last_before_sep, narrow_row, next_crossing, next_vert_left, unjoined, with_joins, PlaneModel,
};

verus! {

/// Running join maintenance a second time, with no edit in between, leaves
/// the grid as the first run left it.
pub proof fn join_idempotence(g: Seq<Seq<char>>, iih: int)
    ensures
        with_joins(with_joins(g, iih), iih) == with_joins(g, iih),
{
    if 0 < iih < g.len() && g[0].len() > 0 {
        let g1 = with_joins(g, iih);
        let ci = g[0].len() - 1;
        assert(g1[0] == g[0]);
        let t1 = joined_row(g[iih], ci);
        assert(joined_row(t1, ci) =~= t1) by {
            let t = g[iih];
            let u = Seq::new(t.len(), |i: int| unjoined(t[i]));
            assert forall|i: int| 0 <= i < t1.len() implies #[trigger] joined_row(t1, ci)[i]
                == t1[i] by {
                assert(unjoined(unjoined(t[i])) == unjoined(t[i]));
                assert(unjoined(joined(u[i])) == u[i]);
                assert(joined(unjoined(joined(u[i]))) == joined(u[i]));
            }
        }
        assert(g1.update(iih, joined_row(g1[iih], ci)) =~= g1);
    }
}


/// Typing in the body never changes the width of a header row; typing in the
/// header never changes the width of a body row, unless the widened column
/// reaches past the right end of the body's first row.
pub proof fn header_isolation_insert(m: PlaneModel, ch: char)
    requires
        m.wf(),
    ensures
        m.row >= m.iih ==> forall|k: int|
            0 <= k < m.iih ==> #[trigger] after_insert(m, ch).grid[k].len() == m.grid[k].len(),
        (m.row < m.iih && !header_escape(m, ch)) ==> forall|k: int|
            m.iih <= k < m.grid.len() ==> #[trigger] after_insert(m, ch).grid[k].len()
                == m.grid[k].len(),
{
    if interior(m.grid, m.row, m.col) {
        let s = m.grid[m.row];
        let g1 = m.grid.update(m.row, s.insert(m.col, ch));
        let g2 = crate::model::inserted_grid(m, ch);
        lemma_joins_shape(g2, m.iih);
        assert(g2.len() == m.grid.len());
        if m.row < m.iih {
            assert(g1[m.iih] == m.grid[m.iih]);
        }
    }
}

/// Deleting in the header never changes the width of a body row; deleting in
/// the body never changes the width of a header row, unless the cursor row
/// is wider than the first row (then the narrowing reaches every row).
pub proof fn header_isolation_delete(m: PlaneModel)
    requires
        m.wf(),
        !(m.iih > 0 && m.row >= m.iih && m.row < m.grid.len() && m.grid[m.row].len()
            > m.grid[0].len()),
    ensures
        m.row >= m.iih ==> forall|k: int|
            0 <= k < m.iih ==> #[trigger] after_delete(m).grid[k].len() == m.grid[k].len(),
        m.row >= m.iih ==> forall|k: int|
            0 <= k < m.iih ==> #[trigger] after_delete_before(m).grid[k].len()
                == m.grid[k].len(),
        m.row < m.iih ==> forall|k: int|
            m.iih <= k < m.grid.len() ==> #[trigger] after_delete(m).grid[k].len()
                == m.grid[k].len(),
        m.row < m.iih ==> forall|k: int|
            m.iih <= k < m.grid.len() ==> #[trigger] after_delete_before(m).grid[k].len()
                == m.grid[k].len(),
{
    if 1 <= m.row < m.grid.len() && 1 <= m.col < m.grid[m.row].len() {
        let s = m.grid[m.row];
        lemma_next_vert_left_bounds(s, m.col);
        let pos = last_before_sep(s, m.col);
        assert(0 <= pos < s.len());
        assert forall|at: int| 0 <= at <= s.len() implies #[trigger] m.grid.update(
            m.row,
            s.insert(pos + 1, ' ').remove(at),
        )[m.row].len() == s.len() by {}
        assert(m.grid.update(m.row, s.insert(pos + 1, ' ').remove(m.col))[0] == m.grid[0]);
        assert(m.grid.update(m.row, s.insert(pos + 1, ' ').remove(m.col - 1))[0] == m.grid[0]);
    }
    if interior(m.grid, m.row, m.col) {
        let g2 = crate::model::deleted_grid(m, m.col);
        lemma_joins_shape(g2, m.iih);
    }
    if m.col >= 1 && allowed(m.grid, m.row, m.col - 1) {
        let g2 = crate::model::deleted_grid(m, m.col - 1);
        lemma_joins_shape(g2, m.iih);
    }
}

/// Typing a character that is no box-drawing glyph, then deleting the
/// character before the cursor, gives the cursor row back, and the cursor
/// with it, where the cell has a space before its right separator. The row
/// loses one column more when no row of the affected range needs that column.
pub proof fn insert_then_delete_before(m: PlaneModel, ch: char)
    requires
        m.wf(),
        allowed(m.grid, m.row, m.col),
        !spec_box_drawing(ch),
        m.row != m.iih,
        m.col + 1 < next_vert_left(m.grid[m.row], m.col + 1) < m.grid[m.row].len(),
        m.grid[m.row][next_vert_left(m.grid[m.row], m.col + 1) - 1] == ' ',
    ensures
        after_insert(m, ch).row == m.row,
        after_insert(m, ch).col == m.col + 1,
        after_delete_before(after_insert(m, ch)).row == m.row,
        after_delete_before(after_insert(m, ch)).col == m.col,
        after_delete_before(after_insert(m, ch)).grid[m.row] == m.grid[m.row]
            || after_delete_before(after_insert(m, ch)).grid[m.row] == narrow_row(
            m.grid[m.row],
            next_vert_left(m.grid[m.row], m.col + 1) - 1,
        ),
{
    let s = m.grid[m.row];
    let col = m.col;
    let e = next_vert_left(s, col + 1);
    lemma_next_vert_left_bounds(s, col + 1);
    let u = s.insert(col, ch).remove(e);
    assert(u.len() == s.len());
    assert(forall|i: int| 0 <= i < col ==> u[i] == s[i]);
    assert(u[col] == ch);
    assert(forall|i: int| col < i < e ==> #[trigger] u[i] == s[i - 1]);
    assert(forall|i: int| e <= i < s.len() ==> #[trigger] u[i] == s[i]);
    let g2 = m.grid.update(m.row, u);
    assert(g2 == crate::model::inserted_grid(m, ch));
    assert(allowed(g2, m.row, col + 1));
    let m1 = after_insert(m, ch);
    lemma_joins_shape(g2, m.iih);
    assert(m1.grid[m.row] == u);
    assert(allowed(m1.grid, m.row, col));
    assert(!spec_vert_left(s[col]));
    assert forall|k: int| col + 1 <= k < e implies !spec_vert_left(#[trigger] u[k]) by {
        assert(u[k] == s[k - 1]);
    }
    lemma_next_vert_left_is(u, col + 1, e);
    assert(u.insert(e, ' ').remove(col) =~= s);
    let g1 = m1.grid.update(m.row, s);
    assert(g1 == m1.grid.update(m.row, u.insert(e, ' ').remove(col)));
    let g3 = crate::model::deleted_grid(m1, col);
    assert(g3[m.row] == s || g3[m.row] == narrow_row(s, e - 1));
    lemma_next_crossing_bounds(s, e - 1);
    assert(!spec_vert_crossing(s[e - 1]));
    assert(allowed(g3, m.row, col));
    lemma_joins_shape(g3, m.iih);
}

} // verus!

verus! {

/// Width consistency of typing: two rows of the range that a widening would
/// reach, of one width, wider than the column before the cursor's separator
/// and with a vertical line at or after it, still share one width afterwards,
/// whether the typed character was absorbed by a space or widened the column.
pub proof fn insert_keeps_widths_consistent(m: PlaneModel, ch: char, a: int, b: int)
    requires
        m.wf(),
        interior(m.grid, m.row, m.col),
        ({
            let s = m.grid[m.row];
            let pos = last_before_sep(s, m.col);
            let (lo, hi) = insert_range(m.grid.update(m.row, s.insert(m.col, ch)), m.row, m.col, m.iih);
            &&& lo <= a < hi
            &&& lo <= b < hi
            &&& m.grid[a].len() == m.grid[b].len()
            &&& pos < m.grid[a].len() - 1
            &&& next_crossing(m.grid[a], pos) < m.grid[a].len()
            &&& next_crossing(m.grid[b], pos) < m.grid[b].len()
        }),
    ensures
        after_insert(m, ch).grid[a].len() == after_insert(m, ch).grid[b].len(),
{
    let g2 = inserted_grid(m, ch);
    lemma_joins_shape(g2, m.iih);
    let s = m.grid[m.row];
    let g1 = m.grid.update(m.row, s.insert(m.col, ch));
    let (lo, hi) = insert_range(g1, m.row, m.col, m.iih);
    assert(hi <= m.grid.len());
    assert(g2.len() == m.grid.len());
    lemma_next_vert_left_bounds(s, m.col + 1);
    let pos = last_before_sep(s, m.col);
    let e = next_vert_left(s, m.col + 1);
    if e > m.col + 1 && s[e - 1] == ' ' {
        assert(g2[a].len() == m.grid[a].len());
        assert(g2[b].len() == m.grid[b].len());
    } else {
        assert(g2 == crate::model::widened(g1, pos, lo, hi, m.row));
        lemma_next_vert_left_bounds(s, m.col);
        lemma_next_crossing_bounds(m.grid[a], pos);
        lemma_next_crossing_bounds(m.grid[b], pos);
        assert(g2[a].len() == m.grid[a].len() + 1);
        assert(g2[b].len() == m.grid[b].len() + 1);
    }
}

/// Width consistency of deleting: two rows other than the cursor row, in the
/// range that a narrowing would reach, of one width, wider than the column
/// before the cursor's separator and with a vertical line after it, still
/// share one width afterwards, whether or not the column was narrowed.
pub proof fn delete_keeps_widths_consistent(m: PlaneModel, a: int, b: int)
    requires
        m.wf(),
        interior(m.grid, m.row, m.col),
        a != m.row,
        b != m.row,
        ({
            let s = m.grid[m.row];
            let pos = last_before_sep(s, m.col);
            let g1 = m.grid.update(m.row, s.insert(pos + 1, ' ').remove(m.col));
            let (lo, hi) = delete_range(g1, m.row, m.iih);
            &&& lo <= a < hi
            &&& lo <= b < hi
            &&& m.grid[a].len() == m.grid[b].len()
            &&& 1 <= pos < m.grid[a].len() - 1
            &&& next_crossing(m.grid[a], pos) < m.grid[a].len()
            &&& next_crossing(m.grid[b], pos) < m.grid[b].len()
        }),
    ensures
        after_delete(m).grid[a].len() == after_delete(m).grid[b].len(),
{
    let s = m.grid[m.row];
    lemma_next_vert_left_bounds(s, m.col);
    let pos = last_before_sep(s, m.col);
    let g1 = m.grid.update(m.row, s.insert(pos + 1, ' ').remove(m.col));
    let (lo, hi) = delete_range(g1, m.row, m.iih);
    assert(hi <= m.grid.len());
    lemma_next_crossing_bounds(m.grid[a], pos);
    lemma_next_crossing_bounds(m.grid[b], pos);
    let g2 = deleted_grid(m, m.col);
    assert(g2.len() == m.grid.len());
    lemma_joins_shape(g2, m.iih);
}

} // verus!

verus! {

/// Width consistency of deleting before the cursor: two rows other than the
/// cursor row, in the range that a narrowing would reach, of one width, wider
/// than the column before the cursor's separator and with a vertical line
/// after it, still share one width afterwards.
pub proof fn delete_before_keeps_widths_consistent(m: PlaneModel, a: int, b: int)
    requires
        m.wf(),
        m.col >= 1,
        allowed(m.grid, m.row, m.col - 1),
        a != m.row,
        b != m.row,
        ({
            let s = m.grid[m.row];
            let pos = last_before_sep(s, m.col);
            let g1 = m.grid.update(m.row, s.insert(pos + 1, ' ').remove(m.col - 1));
            let (lo, hi) = delete_range(g1, m.row, m.iih);
            &&& lo <= a < hi
            &&& lo <= b < hi
            &&& m.grid[a].len() == m.grid[b].len()
            &&& 1 <= pos < m.grid[a].len() - 1
            &&& next_crossing(m.grid[a], pos) < m.grid[a].len()
            &&& next_crossing(m.grid[b], pos) < m.grid[b].len()
        }),
    ensures
        after_delete_before(m).grid[a].len() == after_delete_before(m).grid[b].len(),
{
    let s = m.grid[m.row];
    lemma_next_vert_left_bounds(s, m.col);
    let pos = last_before_sep(s, m.col);
    let g1 = m.grid.update(m.row, s.insert(pos + 1, ' ').remove(m.col - 1));
    let (lo, hi) = delete_range(g1, m.row, m.iih);
    assert(hi <= m.grid.len());
    lemma_next_crossing_bounds(m.grid[a], pos);
    lemma_next_crossing_bounds(m.grid[b], pos);
    let g2 = deleted_grid(m, m.col - 1);
    assert(g2.len() == m.grid.len());
    lemma_joins_shape(g2, m.iih);
}

} // verus!
