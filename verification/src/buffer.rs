//! Line-indexed reading of the document.

use crate::lines::{columns_of, last_line, lemma_line_shape, line_start, visible_len};
use crate::rope::{rope_text, slice_text};
use ropey::{Rope, RopeSlice};
use vstd::prelude::*;

verus! {

/// Index of the last line of the document.
pub fn lines(rope: &Rope) -> (n: usize)
    ensures
        n == last_line(rope_text(*rope)),
{
    rope.len_lines().saturating_sub(1)
}

/// Number of columns of a line: its length without the line feed that may
/// end it.
pub fn columns(line: RopeSlice) -> (n: usize)
    ensures
        n == visible_len(slice_text(line)),
{
    let max: usize = line.len_chars();
    if max > 0 && line.char(max - 1) == '\n' {
        max - 1
    } else {
        max
    }
}

/// Offset of the end of the document: the number of characters that it
/// holds, which is where its last line ends.
pub fn end(rope: &Rope) -> (n: usize)
    ensures
        n == rope_text(*rope).len(),
        n == line_start(rope_text(*rope), last_line(rope_text(*rope))) + columns_of(
            rope_text(*rope),
            last_line(rope_text(*rope)),
        ),
{
    proof {
        lemma_line_shape(rope_text(*rope), last_line(rope_text(*rope)));
    }
    rope.len_chars()
}

} // verus!
