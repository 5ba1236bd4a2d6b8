//! The window that the screen shows of the document, and what has to be
//! written to the terminal to bring the screen up to date.
//!
//! The window follows the primary cursor in single jumps. The whole screen is
//! painted only when the text has changed, when the window has moved or when
//! the terminal has a new size; otherwise the terminal's cursor is put in its
//! place and nothing else is written.

use crate::cursor::{at_most, settled_col};
use crate::draw::row;
use crate::editor::Editor;
use crate::edits::EditorState;
use crate::lines::line_count;
use crate::term::{
    clear_all, clear_all_seq, cursor_goto, cursor_hide, cursor_show, goto_seq, hide_seq,
    reset_seq, show_seq, style_reset,
};
use vstd::prelude::*;
use vstd::string::StringExecFns;

verus! {

/// The window of the document that the screen shows: the line and column in
/// its top left corner, its size, and whether what was painted last can no
/// longer be relied on.
pub struct Viewport {
    pub top_line: nat,
    pub top_col: nat,
    pub height: nat,
    pub width: nat,
    pub stale: bool,
}

/// Where a window of `size` that starts at `top` has to start to hold `at`:
/// at `at` where that lies before it, so far on that `at` is its last place
/// where that lies behind it, and where it is otherwise.
pub open spec fn scroll_to(top: nat, size: nat, at: nat) -> nat {
    let up = if at < top {
        at
    } else {
        top
    };
    if at >= up + size {
        (at - size + 1) as nat
    } else {
        up
    }
}

/// The window after it has followed the primary cursor.
pub open spec fn follows(v: Viewport, s: EditorState) -> Viewport {
    Viewport {
        top_line: scroll_to(v.top_line, v.height, s.primary().line),
        top_col: scroll_to(v.top_col, v.width, settled_col(s.text, s.primary())),
        height: v.height,
        width: v.width,
        stale: false,
    }
}

/// The primary cursor is inside the window.
pub open spec fn shows(v: Viewport, s: EditorState) -> bool {
    &&& v.top_line <= s.primary().line < v.top_line + v.height
    &&& v.top_col <= settled_col(s.text, s.primary()) < v.top_col + v.width
}

/// The rows of the window from its first line up to line `upto`. Every row
/// starts with a carriage return, and every row but the first with a line
/// feed before that.
pub open spec fn rows(s: EditorState, v: Viewport, upto: nat) -> Seq<char>
    decreases upto,
{
    if upto <= v.top_line {
        Seq::empty()
    } else {
        let line = (upto - 1) as nat;
        let lead = if line == v.top_line {
            seq!['\r']
        } else {
            seq!['\n', '\r']
        };
        rows(s, v, line) + lead + row(s, line, v.top_col, v.top_col + v.width)
    }
}

/// The sequence that puts the terminal's cursor on the primary cursor.
pub open spec fn caret_seq(s: EditorState, v: Viewport) -> Seq<char> {
    goto_seq(
        (settled_col(s.text, s.primary()) - v.top_col + 1) as nat,
        (s.primary().line - v.top_line + 1) as nat,
    )
}

/// A whole screen: the terminal's cursor hidden, the screen cleared, every
/// line of the document that the window reaches, and the terminal's cursor
/// shown again on the primary cursor.
pub open spec fn full_frame(s: EditorState, v: Viewport) -> Seq<char> {
    hide_seq() + clear_all_seq() + goto_seq(1, 1) + reset_seq() + rows(
        s,
        v,
        at_most(v.top_line + v.height, line_count(s.text)),
    ) + caret_seq(s, v) + show_seq()
}

/// Whether the screen has to be painted anew: the caller asks for it, what
/// was painted last is stale, or the window has moved.
pub open spec fn repaints(before: Viewport, after: Viewport, draw: bool) -> bool {
    draw || before.stale || after.top_line != before.top_line || after.top_col != before.top_col
}

/// What is written to the terminal when the window `before` is brought up
/// to date: a whole screen, or no more than the place of the cursor.
pub open spec fn frame(s: EditorState, before: Viewport, draw: bool) -> Seq<char> {
    let after = follows(before, s);
    if repaints(before, after, draw) {
        full_frame(s, after)
    } else {
        caret_seq(s, after)
    }
}

/// A window that has followed the primary cursor shows it.
pub proof fn law_follows_shows(v: Viewport, s: EditorState)
    requires
        v.height >= 1,
        v.width >= 1,
    ensures
        shows(follows(v, s), s),
{
}

/// The renderer keeps the window and knows whether the screen is up to date.
pub struct TermRenderer {
    y: usize,
    x: usize,
    height: usize,
    width: usize,
    stale: bool,
}

impl View for TermRenderer {
    type V = Viewport;

    closed spec fn view(&self) -> Viewport {
        Viewport {
            top_line: self.y as nat,
            top_col: self.x as nat,
            height: self.height as nat,
            width: self.width as nat,
            stale: self.stale,
        }
    }
}

impl TermRenderer {
    /// The window has at least one row and one column, and no more than a
    /// terminal can report.
    pub open spec fn wf(&self) -> bool {
        &&& 1 <= self@.height <= u16::MAX
        &&& 1 <= self@.width <= u16::MAX
    }

    /// A renderer for a terminal of the given size, with the window at the
    /// start of the document and nothing painted yet.
    pub fn new(width: u16, height: u16) -> (renderer: Self)
        requires
            width >= 1,
            height >= 1,
        ensures
            renderer@ == (Viewport {
                top_line: 0,
                top_col: 0,
                height: height as nat,
                width: width as nat,
                stale: true,
            }),
            renderer.wf(),
    {
        Self { x: 0, y: 0, height: height as usize, width: width as usize, stale: true }
    }

    /// Takes over a new size of the terminal. What was painted is stale
    /// from then on.
    pub fn resize(&mut self, width: u16, height: u16)
        requires
            width >= 1,
            height >= 1,
        ensures
            final(self)@ == (Viewport {
                top_line: old(self)@.top_line,
                top_col: old(self)@.top_col,
                height: height as nat,
                width: width as nat,
                stale: true,
            }),
            final(self).wf(),
    {
        self.height = height as usize;
        self.width = width as usize;
        self.stale = true;
    }

    /// The column in the top left corner of the window.
    pub fn x(&self) -> (x: usize)
        ensures
            x == self@.top_col,
    {
        self.x
    }

    /// The line in the top left corner of the window.
    pub fn y(&self) -> (y: usize)
        ensures
            y == self@.top_line,
    {
        self.y
    }

    /// The number of rows of the window.
    pub fn height(&self) -> (height: usize)
        ensures
            height == self@.height,
    {
        self.height
    }

    /// The number of columns of the window.
    pub fn width(&self) -> (width: usize)
        ensures
            width == self@.width,
    {
        self.width
    }

    /// Brings the window up to date with the editor and returns what has to
    /// be written to the terminal. The window follows the primary cursor. The
    /// whole screen is painted if `draw` asks for it, if the size has changed
    /// or nothing was painted yet, or if the window has moved; otherwise only
    /// the terminal's cursor is put in its place.
    pub fn update(&mut self, editor: &Editor, draw: bool) -> (out: String)
        requires
            old(self).wf(),
            editor.wf(),
        ensures
            final(self)@ == follows(old(self)@, editor@),
            final(self).wf(),
            shows(final(self)@, editor@),
            out@ == frame(editor@, old(self)@, draw),
    {
        let ghost s = editor@;
        let ghost before = self@;
        let line: usize = editor.line();
        let col: usize = editor.col();
        let old_x: usize = self.x;
        let old_y: usize = self.y;
        if line < self.y {
            self.y = line;
        }
        if line - self.y >= self.height {
            self.y = line - self.height + 1;
        }
        if col < self.x {
            self.x = col;
        }
        if col - self.x >= self.width {
            self.x = col - self.width + 1;
        }
        let full: bool = draw || self.stale || self.x != old_x || self.y != old_y;
        self.stale = false;
        let ghost v = self@;
        let mut out: String = String::new();
        if full {
            out.append(cursor_hide().as_str());
            out.append(clear_all().as_str());
            out.append(cursor_goto(1, 1).as_str());
            out.append(style_reset().as_str());
            let ghost head = out@;
            let count: usize = editor.rope().len_lines();
            let mut ln: usize = self.y;
            while ln < count && ln - self.y < self.height
                invariant
                    self@ == v,
                    self.wf(),
                    editor.wf(),
                    editor@ == s,
                    count == line_count(s.text),
                    v.top_line <= ln <= count,
                    ln <= v.top_line + v.height,
                    out@ == head + rows(s, v, ln as nat),
                decreases count - ln,
            {
                proof {
                    reveal_strlit("\r");
                    reveal_strlit("\n\r");
                }
                if ln == self.y {
                    editor.draw(&mut out, "\r", ln, self.x, self.width);
                } else {
                    editor.draw(&mut out, "\n\r", ln, self.x, self.width);
                }
                ln += 1;
            }
        }
        out.append(cursor_goto((col - self.x + 1) as u16, (line - self.y + 1) as u16).as_str());
        if full {
            out.append(cursor_show().as_str());
        }
        out
    }
}

} // verus!
