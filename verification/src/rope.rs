//! What this library takes on trust from the `ropey` crate.
//!
//! The crate is built without `ropey`'s optional line-break features, so the
//! line feed is the only line terminator that it recognises.

use crate::lines::{
    line_count, line_start, line_text, newlines_before, with_char, without_range,
};
use ropey::{Rope, RopeSlice};
use vstd::prelude::*;

verus! {

/// `ropey::Rope`: a text, held as a tree of chunks.
#[verifier::external_type_specification]
#[verifier::external_body]
pub struct ExRope(ropey::Rope);

/// `ropey::RopeSlice`: a view of a stretch of a rope.
#[verifier::external_type_specification]
#[verifier::external_body]
pub struct ExRopeSlice<'a>(ropey::RopeSlice<'a>);

/// The characters that a rope holds, in order.
pub uninterp spec fn rope_text(rope: Rope) -> Seq<char>;

/// The characters that a slice of a rope holds, in order.
pub uninterp spec fn slice_text(slice: RopeSlice) -> Seq<char>;

/// `Rope::len_chars`: the number of characters in the rope.
pub assume_specification[ Rope::len_chars ](rope: &Rope) -> (n: usize)
    ensures
        n == rope_text(*rope).len(),
;

/// `Rope::len_lines`: the number of lines, one more than the number of line
/// feeds.
pub assume_specification[ Rope::len_lines ](rope: &Rope) -> (n: usize)
    ensures
        n == line_count(rope_text(*rope)),
;

/// `Rope::line_to_char`: the offset at which a line starts. The index one past
/// the last line is accepted and gives the length of the text; a larger one
/// panics.
pub assume_specification[ Rope::line_to_char ](rope: &Rope, line_idx: usize) -> (offset: usize)
    requires
        line_idx <= line_count(rope_text(*rope)),
    ensures
        offset == line_start(rope_text(*rope), line_idx as nat),
;

/// `Rope::char_to_line`: the index of the line that an offset lies on, which
/// is the number of line feeds before it. The length of the text is accepted
/// and gives the last line; a larger offset panics.
pub assume_specification[ Rope::char_to_line ](rope: &Rope, char_idx: usize) -> (line: usize)
    requires
        char_idx <= rope_text(*rope).len(),
    ensures
        line == newlines_before(rope_text(*rope), char_idx as nat),
;

/// `Rope::line`: the line at an index, with its line feed. Panics unless the
/// index is below the number of lines.
pub assume_specification<'a>[ Rope::line ](rope: &'a Rope, line_idx: usize) -> (line: RopeSlice<'a>)
    requires
        line_idx < line_count(rope_text(*rope)),
    ensures
        slice_text(line) == line_text(rope_text(*rope), line_idx as nat),
;

/// `Rope::insert_char`: puts one character in at an offset. Panics if the
/// offset is past the end.
pub assume_specification[ Rope::insert_char ](rope: &mut Rope, char_idx: usize, ch: char)
    requires
        char_idx <= rope_text(*old(rope)).len(),
    ensures
        rope_text(*final(rope)) == with_char(rope_text(*old(rope)), char_idx as nat, ch),
;

/// `RopeSlice::len_chars`: the number of characters in the slice.
pub assume_specification<'a>[ RopeSlice::<'a>::len_chars ](slice: &RopeSlice<'a>) -> (n: usize)
    ensures
        n == slice_text(*slice).len(),
;

/// `RopeSlice::char`: the character at an index. Panics unless the index is
/// below the length.
pub assume_specification<'a>[ RopeSlice::<'a>::char ](
    slice: &RopeSlice<'a>,
    char_idx: usize,
) -> (ch: char)
    requires
        char_idx < slice_text(*slice).len(),
    ensures
        ch == slice_text(*slice)[char_idx as int],
;

/// `Rope::remove` on the range `start..end`: takes those characters out.
/// Panics if `start > end` or `end` is past the end.
#[verifier::external_body]
pub(crate) fn remove_range(rope: &mut Rope, start: usize, end: usize)
    requires
        start <= end <= rope_text(*old(rope)).len(),
    ensures
        rope_text(*final(rope)) == without_range(rope_text(*old(rope)), start as nat, end as nat),
{
    rope.remove(start..end)
}

/// `Rope::slice` on the range `start..end`: a view of those characters.
/// Panics if `start > end` or `end` is past the end.
#[verifier::external_body]
pub(crate) fn slice_range(rope: &Rope, start: usize, end: usize) -> (slice: RopeSlice<'_>)
    requires
        start <= end <= rope_text(*rope).len(),
    ensures
        slice_text(slice) == rope_text(*rope).subrange(start as int, end as int),
{
    rope.slice(start..end)
}

/// `Display` of a `RopeSlice`: its characters as a `String`.
#[verifier::external_body]
pub(crate) fn slice_string(slice: &RopeSlice) -> (s: String)
    ensures
        s@ == slice_text(*slice),
{
    format!("{}", slice)
}

} // verus!
