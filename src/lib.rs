//! Editing model of a decision table drawn with box-drawing characters.
//!
//! The document is a grid of characters; the cursor moves between cells and
//! edits keep the borders and separators of the table aligned.

use vstd::prelude::*;

pub mod glyph;
pub mod laws;
pub mod model;
pub mod plane;
mod text;

verus! {

} // verus!
