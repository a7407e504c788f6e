//! Classification of the box-drawing characters that make up a table.

use vstd::prelude::*;

verus! {

/// Any border, line or junction glyph.
pub open spec fn spec_box_drawing(ch: char) -> bool {
    ch == '┌' || ch == '┐' || ch == '└' || ch == '┘' || ch == '─' || ch == '│' || ch == '├'
        || ch == '┤' || ch == '┴' || ch == '┬' || ch == '┼' || ch == '╪' || ch == '╫' || ch == '╬'
        || ch == '╞' || ch == '╡' || ch == '╥' || ch == '╨' || ch == '═' || ch == '║' || ch == '╟'
        || ch == '╢'
}

/// A vertical line as seen by the content on its left.
pub open spec fn spec_vert_left(ch: char) -> bool {
    ch == '│' || ch == '├' || ch == '║' || ch == '╟'
}

/// A vertical line as seen by the content on its right.
pub open spec fn spec_vert_right(ch: char) -> bool {
    ch == '│' || ch == '┤' || ch == '║' || ch == '╢'
}

/// A glyph through which a vertical line passes.
pub open spec fn spec_vert_crossing(ch: char) -> bool {
    ch == '│' || ch == '┼' || ch == '┬' || ch == '┴' || ch == '╪' || ch == '┐' || ch == '┘'
        || ch == '├' || ch == '║' || ch == '╟' || ch == '╬' || ch == '╥' || ch == '╨' || ch == '╫'
        || ch == '╢' || ch == '┤' || ch == '╡'
}

/// A plain or doubled horizontal line.
pub open spec fn spec_horz_line(ch: char) -> bool {
    ch == '─' || ch == '═'
}

/// A plain or doubled vertical line.
pub open spec fn spec_vert_line(ch: char) -> bool {
    ch == '│' || ch == '║'
}

/// The glyph that widens a column at a crossing `ch`: a space before a pure
/// vertical line, a horizontal segment before a junction.
pub open spec fn spec_filler(ch: char) -> char {
    if ch == '│' || ch == '├' || ch == '║' || ch == '╟' {
        ' '
    } else if ch == '╪' || ch == '╬' || ch == '╡' {
        '═'
    } else {
        '─'
    }
}

/// Checks if the specified character is a box-drawing character.
pub fn is_box_drawing(ch: char) -> (r: bool)
    ensures
        r == spec_box_drawing(ch),
{
    match ch {
        '┌' | '┐' | '└' | '┘' | '─' | '│' | '├' | '┤' | '┴' | '┬' | '┼' | '╪' | '╫' | '╬' | '╞'
        | '╡' | '╥' | '╨' | '═' | '║' | '╟' | '╢' => true,
        _ => false,
    }
}

/// Checks if the specified character is a vertical line seen from the left side.
pub fn is_vert_left(ch: char) -> (r: bool)
    ensures
        r == spec_vert_left(ch),
{
    match ch {
        '│' | '├' | '║' | '╟' => true,
        _ => false,
    }
}

/// Checks if the specified character is a vertical line seen from the right side.
pub fn is_vert_right(ch: char) -> (r: bool)
    ensures
        r == spec_vert_right(ch),
{
    match ch {
        '│' | '┤' | '║' | '╢' => true,
        _ => false,
    }
}

/// Checks if the specified character is a crossing with a vertical line.
pub fn is_vert_crossing(ch: char) -> (r: bool)
    ensures
        r == spec_vert_crossing(ch),
{
    match ch {
        '│' | '┼' | '┬' | '┴' | '╪' | '┐' | '┘' | '├' | '║' | '╟' | '╬' | '╥' | '╨' | '╫' | '╢'
        | '┤' | '╡' => true,
        _ => false,
    }
}

/// Checks if the specified character is a plain or doubled horizontal line.
pub fn is_horz_line_glyph(ch: char) -> (r: bool)
    ensures
        r == spec_horz_line(ch),
{
    ch == '─' || ch == '═'
}

/// Checks if the specified character is a plain or doubled vertical line.
pub fn is_vert_line_glyph(ch: char) -> (r: bool)
    ensures
        r == spec_vert_line(ch),
{
    ch == '│' || ch == '║'
}

/// Returns the glyph that widens a column in front of the crossing `ch`.
pub fn filler(ch: char) -> (r: char)
    ensures
        r == spec_filler(ch),
{
    match ch {
        '│' | '├' | '║' | '╟' => ' ',
        '╪' | '╬' | '╡' => '═',
        _ => '─',
    }
}

} // verus!
