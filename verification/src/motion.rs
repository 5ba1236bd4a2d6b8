//! Laws of cursor movement.
//!
//! Settled positions and offsets into the text correspond one to one, and a
//! step to the left or to the right is a step of one in the offset. The round
//! trips of horizontal and vertical movement follow from that.

use crate::cursor::{
    is_settled, left_by, lemma_step_settled, lemma_steps_settled, locate, moved, offset_of,
    right_by, settle, settled_col, settled_line, step_left, step_right, Movement, Position,
};
use crate::lines::{
    columns_of, last_line, lemma_line_order, lemma_line_shape, lemma_lines_remaining,
    lemma_newlines_skip, lemma_newlines_split, line_start, newlines_before,
};
use vstd::prelude::*;

verus! {

/// Resolving a position gives a settled position with the same offset, and
/// leaves a settled position as it is.
pub proof fn lemma_settle(text: Seq<char>, p: Position)
    ensures
        is_settled(text, settle(text, p)),
        offset_of(text, settle(text, p)) == offset_of(text, p),
        is_settled(text, p) ==> settle(text, p) == p,
        offset_of(text, p) <= text.len(),
{
    lemma_line_shape(text, settled_line(text, p));
}

/// Two settled positions with the same offset are the same position.
pub proof fn lemma_offset_injective(text: Seq<char>, p: Position, q: Position)
    requires
        is_settled(text, p),
        is_settled(text, q),
        offset_of(text, p) == offset_of(text, q),
    ensures
        p == q,
{
    if p.line < q.line {
        lemma_line_order(text, p.line, q.line);
    } else if q.line < p.line {
        lemma_line_order(text, q.line, p.line);
    }
}

/// The start of the text is the only settled position with offset zero, and
/// the end of the last line the only one whose offset is the length of the
/// text.
pub proof fn lemma_offset_ends(text: Seq<char>, p: Position)
    requires
        is_settled(text, p),
    ensures
        offset_of(text, p) == 0 <==> p == (Position { line: 0, col: 0 }),
        offset_of(text, p) == text.len() <==> p == (Position {
            line: last_line(text),
            col: columns_of(text, last_line(text)),
        }),
{
    let first = Position { line: 0, col: 0 };
    let end = Position { line: last_line(text), col: columns_of(text, last_line(text)) };
    lemma_line_shape(text, last_line(text));
    lemma_line_shape(text, 0);
    if offset_of(text, p) == 0 {
        lemma_offset_injective(text, p, first);
    }
    if offset_of(text, p) == text.len() {
        lemma_offset_injective(text, p, end);
    }
}

/// A step to the left takes one off the offset, and a step to the right adds
/// one, unless the step is held at the start or the end of the text.
pub proof fn lemma_step_offset(text: Seq<char>, p: Position)
    requires
        is_settled(text, p),
    ensures
        offset_of(text, step_left(text, p)) == if offset_of(text, p) > 0 {
            offset_of(text, p) - 1
        } else {
            0
        },
        offset_of(text, step_right(text, p)) == if offset_of(text, p) < text.len() {
            offset_of(text, p) + 1
        } else {
            text.len()
        },
{
    lemma_step_settled(text, p);
    lemma_line_shape(text, p.line);
    if p.col == 0 && p.line > 0 {
        lemma_line_shape(text, (p.line - 1) as nat);
    }
    if p.col == columns_of(text, p.line) && p.line < last_line(text) {
        lemma_line_shape(text, p.line + 1);
    }
}

/// `n` steps to the left take `n` off the offset, down to zero; `n` steps to
/// the right add `n`, up to the length of the text.
pub proof fn lemma_steps_offset(text: Seq<char>, p: Position, n: nat)
    requires
        is_settled(text, p),
    ensures
        offset_of(text, left_by(text, p, n)) == if offset_of(text, p) >= n {
            offset_of(text, p) - n
        } else {
            0
        },
        offset_of(text, right_by(text, p, n)) == if offset_of(text, p) + n <= text.len() {
            offset_of(text, p) + n
        } else {
            text.len()
        },
    decreases n,
{
    lemma_settle(text, p);
    if n > 0 {
        let fewer = (n - 1) as nat;
        lemma_steps_offset(text, p, fewer);
        lemma_steps_settled(text, p, fewer);
        lemma_step_offset(text, left_by(text, p, fewer));
        lemma_step_offset(text, right_by(text, p, fewer));
    }
}

/// The position at an offset into the text is settled and has that offset.
pub proof fn lemma_locate(text: Seq<char>, offset: nat)
    requires
        offset <= text.len(),
    ensures
        is_settled(text, locate(text, offset)),
        offset_of(text, locate(text, offset)) == offset,
{
    let origin = Position { line: 0, col: 0 };
    lemma_steps_settled(text, origin, offset);
    lemma_steps_offset(text, origin, offset);
}

/// A settled position is the position at its offset.
pub proof fn lemma_locate_settled(text: Seq<char>, p: Position)
    requires
        is_settled(text, p),
    ensures
        locate(text, offset_of(text, p)) == p,
{
    lemma_settle(text, p);
    lemma_locate(text, offset_of(text, p));
    lemma_offset_injective(text, locate(text, offset_of(text, p)), p);
}

/// The line of a settled position is the number of line feeds before its
/// offset, and its column is the distance of its offset from the start of
/// that line.
pub proof fn lemma_line_of(text: Seq<char>, p: Position)
    requires
        is_settled(text, p),
    ensures
        newlines_before(text, offset_of(text, p)) == p.line,
        line_start(text, p.line) + p.col == offset_of(text, p),
{
    lemma_line_shape(text, p.line);
    lemma_lines_remaining(text, p.line);
    lemma_newlines_skip(text, line_start(text, p.line), offset_of(text, p));
    lemma_newlines_split(text, offset_of(text, p));
}

/// The position an offset further on is a step to the right, and the
/// position an offset back is a step to the left.
pub proof fn law_offsets_are_steps(text: Seq<char>, offset: nat)
    requires
        offset < text.len(),
    ensures
        locate(text, offset + 1) == moved(text, locate(text, offset), Movement::Right(1)),
        locate(text, offset) == moved(text, locate(text, offset + 1), Movement::Left(1)),
{
    let here = locate(text, offset);
    let there = locate(text, offset + 1);
    lemma_locate(text, offset);
    lemma_locate(text, offset + 1);
    lemma_settle(text, here);
    lemma_settle(text, there);
    lemma_steps_settled(text, there, 1);
    lemma_steps_offset(text, there, 1);
    lemma_offset_injective(text, left_by(text, there, 1), here);
    assert(right_by(text, here, 1) == step_right(text, right_by(text, here, 0)));
}

/// Moving left by `n` and then right by `n` brings a cursor back to the
/// position that it stood for, provided that there were `n` characters to its
/// left.
pub proof fn law_left_then_right(text: Seq<char>, p: Position, n: usize)
    requires
        n <= offset_of(text, p),
    ensures
        moved(text, moved(text, p, Movement::Left(n)), Movement::Right(n)) == settle(text, p),
{
    let start = settle(text, p);
    let there = moved(text, p, Movement::Left(n));
    lemma_settle(text, p);
    lemma_steps_settled(text, start, n as nat);
    lemma_steps_offset(text, start, n as nat);
    lemma_settle(text, there);
    let back = moved(text, there, Movement::Right(n));
    lemma_steps_settled(text, there, n as nat);
    lemma_steps_offset(text, there, n as nat);
    lemma_offset_injective(text, back, start);
}

/// Moving right by `n` and then left by `n` brings a cursor back to the
/// position that it stood for, provided that there were `n` characters to its
/// right.
pub proof fn law_right_then_left(text: Seq<char>, p: Position, n: usize)
    requires
        offset_of(text, p) + n <= text.len(),
    ensures
        moved(text, moved(text, p, Movement::Right(n)), Movement::Left(n)) == settle(text, p),
{
    let start = settle(text, p);
    let there = moved(text, p, Movement::Right(n));
    lemma_settle(text, p);
    lemma_steps_settled(text, start, n as nat);
    lemma_steps_offset(text, start, n as nat);
    lemma_settle(text, there);
    let back = moved(text, there, Movement::Left(n));
    lemma_steps_settled(text, there, n as nat);
    lemma_steps_offset(text, there, n as nat);
    lemma_offset_injective(text, back, start);
}

/// Moving left by at least as many characters as lie to the left of a cursor
/// ends at the start of the text, and moving left from there changes nothing.
pub proof fn law_left_saturates(text: Seq<char>, p: Position, n: usize, again: usize)
    requires
        offset_of(text, p) <= n,
    ensures
        moved(text, p, Movement::Left(n)) == (Position { line: 0, col: 0 }),
        moved(text, moved(text, p, Movement::Left(n)), Movement::Left(again)) == moved(
            text,
            p,
            Movement::Left(n),
        ),
{
    let start = settle(text, p);
    let there = moved(text, p, Movement::Left(n));
    lemma_settle(text, p);
    lemma_steps_settled(text, start, n as nat);
    lemma_steps_offset(text, start, n as nat);
    lemma_offset_ends(text, there);
    lemma_settle(text, there);
    let after = moved(text, there, Movement::Left(again));
    lemma_steps_settled(text, there, again as nat);
    lemma_steps_offset(text, there, again as nat);
    lemma_offset_ends(text, after);
}

/// Moving right by at least as many characters as lie to the right of a
/// cursor ends at the end of the text, and moving right from there changes
/// nothing.
pub proof fn law_right_saturates(text: Seq<char>, p: Position, n: usize, again: usize)
    requires
        offset_of(text, p) + n >= text.len(),
    ensures
        moved(text, p, Movement::Right(n)) == (Position {
            line: last_line(text),
            col: columns_of(text, last_line(text)),
        }),
        moved(text, moved(text, p, Movement::Right(n)), Movement::Right(again)) == moved(
            text,
            p,
            Movement::Right(n),
        ),
{
    let start = settle(text, p);
    let there = moved(text, p, Movement::Right(n));
    lemma_settle(text, p);
    lemma_steps_settled(text, start, n as nat);
    lemma_steps_offset(text, start, n as nat);
    lemma_offset_ends(text, there);
    lemma_settle(text, there);
    let after = moved(text, there, Movement::Right(again));
    lemma_steps_settled(text, there, again as nat);
    lemma_steps_offset(text, there, again as nat);
    lemma_offset_ends(text, after);
}

/// Moving up by `n` and then down by `n` brings a cursor back to its line and
/// keeps its desired column, provided that there were `n` lines above it.
pub proof fn law_up_then_down(text: Seq<char>, p: Position, n: usize)
    requires
        n <= settled_line(text, p),
    ensures
        moved(text, moved(text, p, Movement::Up(n)), Movement::Down(n)) == (Position {
            line: settled_line(text, p),
            col: p.col,
        }),
        settled_col(text, moved(text, moved(text, p, Movement::Up(n)), Movement::Down(n)))
            == settled_col(text, p),
{
}

/// Moving down by `n` and then up by `n` brings a cursor back to its line and
/// keeps its desired column, provided that there were `n` lines below it.
pub proof fn law_down_then_up(text: Seq<char>, p: Position, n: usize)
    requires
        settled_line(text, p) + n <= last_line(text),
    ensures
        moved(text, moved(text, p, Movement::Down(n)), Movement::Up(n)) == (Position {
            line: settled_line(text, p),
            col: p.col,
        }),
{
}

} // verus!
