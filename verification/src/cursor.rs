//! A single cursor and the movements that it follows.
//!
//! A cursor stores a line and a desired column. The column may lie past the
//! end of its line: it is resolved against the line's real length whenever it
//! is read, so that vertical movement keeps it across short lines. A line
//! index past the last line is likewise resolved to the last line before it
//! is used, so that a cursor can be read against any document.

use crate::buffer::{columns, lines};
use crate::lines::{columns_of, last_line, lemma_line_shape, line_start};
use crate::motion::{lemma_line_of, lemma_locate};
use crate::rope::rope_text;
use ropey::Rope;
use vstd::prelude::*;

verus! {

/// A position in a text: a line and a column, both counted from zero.
pub struct Position {
    pub line: nat,
    pub col: nat,
}

/// A cursor: a line and the column that it would like to be in.
#[derive(Clone, Copy, Debug, PartialEq, Eq, Structural)]
pub struct Cursor {
    pub line: usize,
    pub col: usize,
}

/// What a cursor can be asked to do.
#[derive(Clone, Copy, Debug, PartialEq, Eq, Structural)]
pub enum Movement {
    Up(usize),
    Down(usize),
    Left(usize),
    Right(usize),
    Begin,
    End,
    LineBegin,
    LineEnd,
    Goto(usize, usize),
    GotoLine(usize),
    GotoCol(usize),
}

impl View for Cursor {
    type V = Position;

    open spec fn view(&self) -> Position {
        Position { line: self.line as nat, col: self.col as nat }
    }
}

/// The smaller of two numbers.
pub open spec fn at_most(a: nat, bound: nat) -> nat {
    if a <= bound {
        a
    } else {
        bound
    }
}

/// The line that a position stands for: its own, or the last line of the text
/// where its own does not exist.
pub open spec fn settled_line(text: Seq<char>, p: Position) -> nat {
    at_most(p.line, last_line(text))
}

/// The column that a position stands for: its own, or the end of its line
/// where the line is shorter.
pub open spec fn settled_col(text: Seq<char>, p: Position) -> nat {
    at_most(p.col, columns_of(text, settled_line(text, p)))
}

/// The position that `p` stands for in `text`, with line and column resolved.
pub open spec fn settle(text: Seq<char>, p: Position) -> Position {
    Position { line: settled_line(text, p), col: settled_col(text, p) }
}

/// A position is settled when it names a line of the text and a column of
/// that line.
pub open spec fn is_settled(text: Seq<char>, p: Position) -> bool {
    p.line <= last_line(text) && p.col <= columns_of(text, p.line)
}

/// The offset into the text that a position stands for.
pub open spec fn offset_of(text: Seq<char>, p: Position) -> nat {
    line_start(text, settled_line(text, p)) + settled_col(text, p)
}

/// One step to the left: a column back, or to the end of the line above, or
/// nowhere at the start of the text.
pub open spec fn step_left(text: Seq<char>, p: Position) -> Position {
    if p.col > 0 {
        Position { line: p.line, col: (p.col - 1) as nat }
    } else if p.line > 0 {
        Position { line: (p.line - 1) as nat, col: columns_of(text, (p.line - 1) as nat) }
    } else {
        p
    }
}

/// One step to the right: a column on, or to the start of the line below, or
/// nowhere at the end of the text.
pub open spec fn step_right(text: Seq<char>, p: Position) -> Position {
    if p.col < columns_of(text, p.line) {
        Position { line: p.line, col: p.col + 1 }
    } else if p.line < last_line(text) {
        Position { line: p.line + 1, col: 0 }
    } else {
        p
    }
}

/// `n` steps to the left.
pub open spec fn left_by(text: Seq<char>, p: Position, n: nat) -> Position
    decreases n,
{
    if n == 0 {
        p
    } else {
        step_left(text, left_by(text, p, (n - 1) as nat))
    }
}

/// `n` steps to the right.
pub open spec fn right_by(text: Seq<char>, p: Position, n: nat) -> Position
    decreases n,
{
    if n == 0 {
        p
    } else {
        step_right(text, right_by(text, p, (n - 1) as nat))
    }
}

/// The position at an offset into the text: as many steps to the right of
/// the start of the text. Past the end of a line it is the start of the
/// next.
pub open spec fn locate(text: Seq<char>, offset: nat) -> Position {
    right_by(text, Position { line: 0, col: 0 }, offset)
}

/// Where a movement takes a position in a text.
///
/// Vertical movement keeps the desired column. Horizontal movement starts
/// from the resolved column. `LineBegin` in column zero goes a line up, and
/// `LineEnd` at or past the end of a line goes to the end of the line below.
/// The absolute movements resolve each coordinate against the text.
pub open spec fn moved(text: Seq<char>, p: Position, m: Movement) -> Position {
    let line = settled_line(text, p);
    let last = last_line(text);
    match m {
        Movement::Up(n) => Position {
            line: if n >= line {
                0
            } else {
                (line - n) as nat
            },
            col: p.col,
        },
        Movement::Down(n) => Position { line: at_most((line + n) as nat, last), col: p.col },
        Movement::Left(n) => left_by(text, settle(text, p), n as nat),
        Movement::Right(n) => right_by(text, settle(text, p), n as nat),
        Movement::LineBegin => if p.col == 0 {
            Position { line: if line >= 1 { (line - 1) as nat } else { 0 }, col: 0 }
        } else {
            Position { line: line, col: 0 }
        },
        Movement::LineEnd => {
            let target = if p.col >= columns_of(text, line) {
                at_most(line + 1, last)
            } else {
                line
            };
            Position { line: target, col: columns_of(text, target) }
        },
        Movement::Begin => Position { line: 0, col: 0 },
        Movement::End => Position { line: last, col: columns_of(text, last) },
        Movement::Goto(l, c) => Position {
            line: at_most(l as nat, last),
            col: at_most(c as nat, columns_of(text, at_most(l as nat, last))),
        },
        Movement::GotoLine(l) => Position { line: at_most(l as nat, last), col: p.col },
        Movement::GotoCol(c) => Position {
            line: line,
            col: at_most(c as nat, columns_of(text, line)),
        },
    }
}

/// A step to either side of a settled position ends on a settled position.
pub proof fn lemma_step_settled(text: Seq<char>, p: Position)
    requires
        is_settled(text, p),
    ensures
        is_settled(text, step_left(text, p)),
        is_settled(text, step_right(text, p)),
{
}

/// Any number of steps from a settled position ends on a settled position.
pub proof fn lemma_steps_settled(text: Seq<char>, p: Position, n: nat)
    requires
        is_settled(text, p),
    ensures
        is_settled(text, left_by(text, p, n)),
        is_settled(text, right_by(text, p, n)),
    decreases n,
{
    if n > 0 {
        lemma_steps_settled(text, p, (n - 1) as nat);
        lemma_step_settled(text, left_by(text, p, (n - 1) as nat));
        lemma_step_settled(text, right_by(text, p, (n - 1) as nat));
    }
}

/// Once the steps to the left have reached the start of the text, further
/// steps stay there.
pub proof fn lemma_left_stays_at_start(text: Seq<char>, p: Position, reached: nat, n: nat)
    requires
        reached <= n,
        left_by(text, p, reached) == (Position { line: 0, col: 0 }),
    ensures
        left_by(text, p, n) == (Position { line: 0, col: 0 }),
    decreases n,
{
    if reached < n {
        lemma_left_stays_at_start(text, p, reached, (n - 1) as nat);
    }
}

/// Once the steps to the right have reached the end of the text, further
/// steps stay there.
pub proof fn lemma_right_stays_at_end(text: Seq<char>, p: Position, reached: nat, n: nat)
    requires
        reached <= n,
        right_by(text, p, reached) == (Position {
            line: last_line(text),
            col: columns_of(text, last_line(text)),
        }),
    ensures
        right_by(text, p, n) == right_by(text, p, reached),
    decreases n,
{
    if reached < n {
        lemma_right_stays_at_end(text, p, reached, (n - 1) as nat);
    }
}

/// Every movement ends on a line of the text, and the column it ends on
/// resolves to a column of that line.
pub proof fn lemma_moved_in_bounds(text: Seq<char>, p: Position, m: Movement)
    ensures
        moved(text, p, m).line < crate::lines::line_count(text),
        settled_col(text, moved(text, p, m)) <= columns_of(text, moved(text, p, m).line),
{
    match m {
        Movement::Left(n) => {
            lemma_steps_settled(text, settle(text, p), n as nat);
        },
        Movement::Right(n) => {
            lemma_steps_settled(text, settle(text, p), n as nat);
        },
        _ => {},
    }
}

impl Cursor {
    /// A cursor at the given line and desired column.
    pub fn new(line: usize, col: usize) -> (cursor: Self)
        ensures
            cursor.line == line,
            cursor.col == col,
    {
        Self { line, col }
    }

    /// The line that the cursor stores.
    pub fn line(&self) -> (line: usize)
        ensures
            line == self.line,
    {
        self.line
    }

    /// The line of the document that the cursor is on.
    fn row(&self, rope: &Rope) -> (line: usize)
        ensures
            line == settled_line(rope_text(*rope), self@),
    {
        let last: usize = lines(rope);
        if self.line <= last {
            self.line
        } else {
            last
        }
    }

    /// Number of columns of the line that the cursor is on.
    pub fn columns(&self, rope: &Rope) -> (n: usize)
        ensures
            n == columns_of(rope_text(*rope), settled_line(rope_text(*rope), self@)),
    {
        columns(rope.line(self.row(rope)))
    }

    /// The column that the cursor is in: the desired one, or the end of the
    /// line where the line is shorter.
    pub fn col(&self, rope: &Rope) -> (col: usize)
        ensures
            col == settled_col(rope_text(*rope), self@),
            col <= columns_of(rope_text(*rope), settled_line(rope_text(*rope), self@)),
    {
        let max: usize = self.columns(rope);
        if self.col <= max {
            self.col
        } else {
            max
        }
    }

    /// Offset of the cursor into the document.
    pub fn pos(&self, rope: &Rope) -> (offset: usize)
        ensures
            offset == offset_of(rope_text(*rope), self@),
            offset <= rope_text(*rope).len(),
    {
        let line: usize = self.row(rope);
        // The document's length is a `usize`, and no offset into it is larger.
        let _: usize = rope.len_chars();
        proof {
            lemma_line_shape(rope_text(*rope), line as nat);
        }
        rope.line_to_char(line) + self.col(rope)
    }

    /// The cursor at an offset into the document.
    pub fn at(rope: &Rope, offset: usize) -> (cursor: Self)
        requires
            offset <= rope_text(*rope).len(),
        ensures
            cursor@ == locate(rope_text(*rope), offset as nat),
            offset_of(rope_text(*rope), cursor@) == offset,
            is_settled(rope_text(*rope), cursor@),
    {
        proof {
            lemma_locate(rope_text(*rope), offset as nat);
            lemma_line_of(rope_text(*rope), locate(rope_text(*rope), offset as nat));
        }
        let line: usize = rope.char_to_line(offset);
        Self { line: line, col: offset - rope.line_to_char(line) }
    }

    /// Moves the cursor as `movement` says, within the document as it is
    /// now. The cursor ends on a line of the document.
    pub fn apply(&mut self, rope: &Rope, movement: Movement)
        ensures
            final(self)@ == moved(rope_text(*rope), old(self)@, movement),
            final(self).line < crate::lines::line_count(rope_text(*rope)),
            settled_col(rope_text(*rope), final(self)@) <= columns_of(
                rope_text(*rope),
                final(self).line as nat,
            ),
    {
        let ghost text = rope_text(*rope);
        let ghost before = self@;
        proof {
            lemma_moved_in_bounds(text, before, movement);
        }
        let last: usize = lines(rope);
        self.line = self.row(rope);
        match movement {
            Movement::Up(n) => {
                self.line = self.line.saturating_sub(n);
            },
            Movement::Down(n) => {
                self.line = if n >= last - self.line {
                    last
                } else {
                    self.line + n
                };
            },
            Movement::Left(n) => {
                self.col = self.col(rope);
                let mut done: usize = 0;
                while done < n
                    invariant_except_break
                        done <= n,
                        self@ == left_by(text, settle(text, before), done as nat),
                    invariant
                        text == rope_text(*rope),
                        is_settled(text, self@),
                    ensures
                        self@ == left_by(text, settle(text, before), n as nat),
                    decreases n - done,
                {
                    proof {
                        lemma_step_settled(text, self@);
                    }
                    if self.col > 0 {
                        self.col -= 1;
                    } else if self.line > 0 {
                        self.line -= 1;
                        self.col = self.columns(rope);
                    } else {
                        proof {
                            lemma_left_stays_at_start(
                                text,
                                settle(text, before),
                                done as nat,
                                n as nat,
                            );
                        }
                        break ;
                    }
                    done += 1;
                }
            },
            Movement::Right(n) => {
                self.col = self.col(rope);
                let mut done: usize = 0;
                while done < n
                    invariant_except_break
                        done <= n,
                        self@ == right_by(text, settle(text, before), done as nat),
                    invariant
                        text == rope_text(*rope),
                        last == last_line(text),
                        is_settled(text, self@),
                    ensures
                        self@ == right_by(text, settle(text, before), n as nat),
                    decreases n - done,
                {
                    proof {
                        lemma_step_settled(text, self@);
                    }
                    if self.col < self.columns(rope) {
                        self.col += 1;
                    } else if self.line < last {
                        self.line += 1;
                        self.col = 0;
                    } else {
                        proof {
                            lemma_right_stays_at_end(
                                text,
                                settle(text, before),
                                done as nat,
                                n as nat,
                            );
                        }
                        break ;
                    }
                    done += 1;
                }
            },
            Movement::LineBegin => {
                if self.col == 0 {
                    self.line = self.line.saturating_sub(1);
                } else {
                    self.col = 0;
                }
            },
            Movement::LineEnd => {
                if self.col >= self.columns(rope) && self.line < last {
                    self.line += 1;
                }
                self.col = self.columns(rope);
            },
            Movement::Begin => {
                self.line = 0;
                self.col = 0;
            },
            Movement::End => {
                self.line = last;
                self.col = self.columns(rope);
            },
            Movement::Goto(line, col) => {
                self.line = if line <= last {
                    line
                } else {
                    last
                };
                let max: usize = self.columns(rope);
                self.col = if col <= max {
                    col
                } else {
                    max
                };
            },
            Movement::GotoLine(line) => {
                self.line = if line <= last {
                    line
                } else {
                    last
                };
            },
            Movement::GotoCol(col) => {
                let max: usize = self.columns(rope);
                self.col = if col <= max {
                    col
                } else {
                    max
                };
            },
        }
    }
}

} // verus!
