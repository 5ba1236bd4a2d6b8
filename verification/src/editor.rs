//! The editor: one document and the set of cursors that edit it.

use crate::buffer::{end, lines};
use crate::cursor::{
    at_most, is_settled, locate, moved, settled_col, Cursor, Movement, Position,
};
use crate::edits::{
    all_moved, collapsed, edit_upto, edited, offsets_of, primary_moved, shifted,
    with_cursor_above, with_cursor_below, Edit, EditorState,
};
use crate::input::{Key, MouseButton, MouseEvent};
use crate::lines::{columns_of, last_line, lemma_shape_bound, without_range};
use crate::rope::{remove_range, rope_text, slice_range, slice_string};
use ropey::Rope;
use vstd::prelude::*;

verus! {

/// The positions that a sequence of cursors stands for.
pub open spec fn positions(cursors: Seq<Cursor>) -> Seq<Position> {
    Seq::new(cursors.len(), |i: int| cursors[i]@)
}

/// An editor owns its document and a set of cursors that is never empty. The
/// first cursor is the primary one.
pub struct Editor {
    rope: Rope,
    cursors: Vec<Cursor>,
}

impl View for Editor {
    type V = EditorState;

    closed spec fn view(&self) -> EditorState {
        EditorState { text: rope_text(self.rope), cursors: positions(self.cursors@) }
    }
}

/// The state after a key press. `height` is the number of lines that a page
/// key moves by.
pub open spec fn after_key(s: EditorState, key: Key, height: usize) -> EditorState {
    match key {
        Key::Up => all_moved(s, Movement::Up(1)),
        Key::Down => all_moved(s, Movement::Down(1)),
        Key::Left => all_moved(s, Movement::Left(1)),
        Key::Right => all_moved(s, Movement::Right(1)),
        Key::Home => all_moved(s, Movement::Begin),
        Key::End => all_moved(s, Movement::End),
        Key::PageUp => all_moved(s, Movement::Up(height)),
        Key::PageDown => all_moved(s, Movement::Down(height)),
        Key::Ctrl(c) => if c == 'a' {
            all_moved(s, Movement::LineBegin)
        } else if c == 'e' {
            all_moved(s, Movement::LineEnd)
        } else {
            s
        },
        Key::Char(c) => edited(s, Edit::Insert(c)),
        Key::Backspace => edited(s, Edit::Backspace),
        Key::Delete => edited(s, Edit::Delete),
        Key::Alt(c) => if c == 'j' {
            with_cursor_above(s)
        } else if c == 'k' {
            with_cursor_below(s)
        } else {
            s
        },
        Key::Esc => collapsed(s),
        _ => s,
    }
}

/// The state after a mouse event while the top left corner of the screen
/// shows column `x` of line `y`. A press of the left button puts the primary
/// cursor where the pointer is; nothing else has an effect.
pub open spec fn after_mouse(s: EditorState, mouse: MouseEvent, x: usize, y: usize) -> EditorState {
    match mouse {
        MouseEvent::Press(MouseButton::Left, mouse_x, mouse_y) => {
            let line = at_most((y + at_least_one(mouse_y) - 1) as nat, last_line(s.text));
            let col = at_most((x + at_least_one(mouse_x) - 1) as nat, columns_of(s.text, line));
            EditorState {
                text: s.text,
                cursors: s.cursors.update(0, Position { line: line, col: col }),
            }
        },
        _ => s,
    }
}

/// A terminal coordinate, which counts from one; zero is taken for one.
pub open spec fn at_least_one(coordinate: u16) -> nat {
    if coordinate >= 1 {
        coordinate as nat
    } else {
        1
    }
}

/// Shifts the offsets as an edit at offset `at` does that changed the text.
fn shift(offsets: &mut Vec<usize>, at: usize, edit: Edit)
    requires
        edit is Insert ==> forall|j: int|
            0 <= j < old(offsets)@.len() ==> (#[trigger] old(offsets)@[j]) < usize::MAX,
        edit is Backspace ==> at > 0,
    ensures
        final(offsets)@.len() == old(offsets)@.len(),
        forall|j: int|
            0 <= j < old(offsets)@.len() ==> (#[trigger] final(offsets)@[j]) == shifted(
                old(offsets)@[j] as nat,
                at as nat,
                edit,
            ),
{
    let ghost before = offsets@;
    let count: usize = offsets.len();
    let mut j: usize = 0;
    while j < count
        invariant
            j <= count,
            offsets@.len() == count,
            before.len() == count,
            edit is Insert ==> forall|i: int| 0 <= i < count ==> (#[trigger] before[i]) < usize::MAX,
            edit is Backspace ==> at > 0,
            forall|i: int|
                0 <= i < j ==> (#[trigger] offsets@[i]) == shifted(before[i] as nat, at as nat, edit),
            forall|i: int| j <= i < count ==> (#[trigger] offsets@[i]) == before[i],
        decreases count - j,
    {
        let offset: usize = offsets[j];
        assert(offset == before[j as int]);
        let moved: usize = match edit {
            Edit::Insert(_) => if offset >= at {
                offset + 1
            } else {
                offset
            },
            Edit::Backspace => if offset >= at {
                offset - 1
            } else {
                offset
            },
            Edit::Delete => if offset > at {
                offset - 1
            } else {
                offset
            },
        };
        offsets[j] = moved;
        j += 1;
    }
}

impl Editor {
    /// There is a cursor, and every cursor is on a line of the document.
    pub open spec fn wf(&self) -> bool {
        self@.wf()
    }

    /// An editor for `rope` with a single cursor at the start of the text.
    pub fn new(rope: Rope) -> (editor: Self)
        ensures
            editor@.text == rope_text(rope),
            editor@.cursors == seq![Position { line: 0, col: 0 }],
            editor.wf(),
    {
        let mut cursors: Vec<Cursor> = Vec::with_capacity(4);
        cursors.push(Cursor::new(0, 0));
        Self { rope, cursors }
    }

    /// The document.
    pub fn rope(&self) -> (rope: &Rope)
        ensures
            rope_text(*rope) == self@.text,
    {
        &self.rope
    }

    /// The cursors, in the order of the set.
    pub fn cursors(&self) -> (cursors: &Vec<Cursor>)
        ensures
            positions(cursors@) == self@.cursors,
    {
        &self.cursors
    }

    /// The line of the primary cursor.
    pub fn line(&self) -> (line: usize)
        requires
            self.wf(),
        ensures
            line == self@.primary().line,
    {
        self.cursors[0].line()
    }

    /// The column of the primary cursor, resolved against its line.
    pub fn col(&self) -> (col: usize)
        requires
            self.wf(),
        ensures
            col == settled_col(self@.text, self@.primary()),
    {
        self.cursors[0].col(&self.rope)
    }

    /// The whole text of the document.
    pub fn contents(&self) -> (text: String)
        ensures
            text@ == self@.text,
    {
        let size: usize = self.rope.len_chars();
        let all = slice_range(&self.rope, 0, size);
        slice_string(&all)
    }

    /// Moves every cursor by the same movement. The document stays as it is.
    pub fn move_all(&mut self, movement: Movement) -> (changed: bool)
        requires
            old(self).wf(),
        ensures
            final(self)@ == all_moved(old(self)@, movement),
            final(self).wf(),
            !changed,
    {
        let ghost before = self@;
        let count: usize = self.cursors.len();
        let mut i: usize = 0;
        while i < count
            invariant
                i <= count,
                count == self.cursors.len(),
                self@.text == before.text,
                before.cursors.len() == count,
                forall|j: int|
                    0 <= j < i ==> self@.cursors[j] == moved(
                        before.text,
                        before.cursors[j],
                        movement,
                    ),
                forall|j: int| i <= j < count ==> self@.cursors[j] == before.cursors[j],
                forall|j: int|
                    0 <= j < i ==> (#[trigger] self@.cursors[j]).line <= last_line(before.text),
            decreases count - i,
        {
            let ghost now = self@;
            let mut cursor: Cursor = self.cursors[i];
            cursor.apply(&self.rope, movement);
            self.cursors[i] = cursor;
            assert(self@.cursors =~= now.cursors.update(i as int, cursor@));
            i += 1;
        }
        assert(self@.cursors =~= all_moved(before, movement).cursors);
        false
    }

    /// The offsets of the cursors into the document, in the order of the set.
    fn offsets(&self) -> (offsets: Vec<usize>)
        ensures
            offsets@.len() == self@.cursors.len(),
            forall|j: int|
                0 <= j < offsets@.len() ==> (#[trigger] offsets@[j]) == offsets_of(self@)[j],
            forall|j: int| 0 <= j < offsets@.len() ==> (#[trigger] offsets@[j]) <= self@.text.len(),
    {
        let mut offsets: Vec<usize> = Vec::new();
        let mut i: usize = 0;
        while i < self.cursors.len()
            invariant
                i <= self.cursors.len(),
                offsets@.len() == i,
                forall|j: int| 0 <= j < i ==> (#[trigger] offsets@[j]) == offsets_of(self@)[j],
                forall|j: int| 0 <= j < i ==> (#[trigger] offsets@[j]) <= self@.text.len(),
            decreases self.cursors.len() - i,
        {
            let offset: usize = self.cursors[i].pos(&self.rope);
            offsets.push(offset);
            i += 1;
        }
        offsets
    }

    /// Lets every cursor make the edit, in the order of the set.
    fn edit_each(&mut self, edit: Edit) -> (changed: bool)
        requires
            old(self).wf(),
        ensures
            final(self)@ == edited(old(self)@, edit),
            final(self).wf(),
            changed == (final(self)@.text != old(self)@.text),
            edit is Insert ==> changed,
    {
        let ghost before = self@;
        let ghost start = offsets_of(before);
        let count: usize = self.cursors.len();
        let mut offsets: Vec<usize> = self.offsets();
        let mut changed = false;
        let mut k: usize = 0;
        while k < count
            invariant
                k <= count,
                count >= 1,
                count == self.cursors.len(),
                count == offsets@.len(),
                start.len() == count,
                self@.cursors == before.cursors,
                rope_text(self.rope) == edit_upto(before.text, start, edit, k as nat).0,
                edit_upto(before.text, start, edit, k as nat).1.len() == count,
                forall|j: int|
                    0 <= j < count ==> (#[trigger] offsets@[j]) == edit_upto(
                        before.text,
                        start,
                        edit,
                        k as nat,
                    ).1[j],
                forall|j: int|
                    0 <= j < count ==> (#[trigger] offsets@[j]) <= rope_text(self.rope).len(),
                !changed ==> rope_text(self.rope) == before.text,
                edit is Insert ==> rope_text(self.rope).len() == before.text.len() + k && changed
                    == (k > 0),
                !(edit is Insert) ==> rope_text(self.rope).len() <= before.text.len(),
                !(edit is Insert) && changed ==> rope_text(self.rope).len() < before.text.len(),
            decreases count - k,
        {
            let ghost text = rope_text(self.rope);
            let at: usize = offsets[k];
            let hit: bool = match edit {
                Edit::Insert(ch) => {
                    self.rope.insert_char(at, ch);
                    true
                },
                Edit::Backspace => {
                    if at > 0 {
                        remove_range(&mut self.rope, at - 1, at);
                        assert(without_range(text, (at - 1) as nat, at as nat) =~= text.remove(
                            at - 1,
                        ));
                        true
                    } else {
                        false
                    }
                },
                Edit::Delete => {
                    if at < end(&self.rope) {
                        remove_range(&mut self.rope, at, at + 1);
                        assert(without_range(text, at as nat, (at + 1) as nat) =~= text.remove(
                            at as int,
                        ));
                        true
                    } else {
                        false
                    }
                },
            };
            if hit {
                // The document's length is a `usize`, and no offset into it is larger.
                let _: usize = self.rope.len_chars();
                shift(&mut offsets, at, edit);
                changed = true;
            }
            k += 1;
        }
        if changed {
            let ghost after = edit_upto(before.text, start, edit, count as nat);
            let mut j: usize = 0;
            while j < count
                invariant
                    j <= count,
                    count == self.cursors.len(),
                    count == offsets@.len(),
                    after.1.len() == count,
                    rope_text(self.rope) == after.0,
                    forall|i: int| 0 <= i < count ==> (#[trigger] offsets@[i]) == after.1[i],
                    forall|i: int|
                        0 <= i < count ==> (#[trigger] offsets@[i]) <= rope_text(self.rope).len(),
                    forall|i: int|
                        0 <= i < j ==> (#[trigger] self.cursors@[i])@ == locate(after.0, after.1[i]),
                    forall|i: int|
                        0 <= i < j ==> is_settled(after.0, (#[trigger] self.cursors@[i])@),
                decreases count - j,
            {
                let cursor: Cursor = Cursor::at(&self.rope, offsets[j]);
                self.cursors[j] = cursor;
                j += 1;
            }
            assert(self@.cursors =~= edited(before, edit).cursors);
        }
        changed
    }

    /// Puts `ch` in at every cursor, in the order of the set. Every cursor
    /// ends behind the character that it put in, and keeps its place between
    /// the characters around it when another cursor puts one in before it.
    /// Reports that the document changed.
    pub fn insert_char(&mut self, ch: char) -> (changed: bool)
        requires
            old(self).wf(),
        ensures
            final(self)@ == edited(old(self)@, Edit::Insert(ch)),
            final(self).wf(),
            changed,
            final(self)@.text != old(self)@.text,
    {
        self.edit_each(Edit::Insert(ch))
    }

    /// Takes out the character before every cursor, in the order of the
    /// set; a cursor at the start of the document takes out nothing. Every
    /// cursor keeps its place between the characters that are left. Reports
    /// whether the document changed.
    pub fn backspace(&mut self) -> (changed: bool)
        requires
            old(self).wf(),
        ensures
            final(self)@ == edited(old(self)@, Edit::Backspace),
            final(self).wf(),
            changed == (final(self)@.text != old(self)@.text),
    {
        self.edit_each(Edit::Backspace)
    }

    /// Takes out the character at every cursor, in the order of the set; a
    /// cursor at the end of the document takes out nothing. Every cursor
    /// keeps its place between the characters that are left. Reports whether
    /// the document changed.
    pub fn delete(&mut self) -> (changed: bool)
        requires
            old(self).wf(),
        ensures
            final(self)@ == edited(old(self)@, Edit::Delete),
            final(self).wf(),
            changed == (final(self)@.text != old(self)@.text),
    {
        self.edit_each(Edit::Delete)
    }

    /// Adds a cursor in front of the set, a line above the first cursor,
    /// unless that one is on the first line. The document stays as it is.
    pub fn add_above(&mut self) -> (changed: bool)
        requires
            old(self).wf(),
        ensures
            final(self)@ == with_cursor_above(old(self)@),
            final(self).wf(),
            !changed,
    {
        let ghost before = self@;
        let first: Cursor = self.cursors[0];
        if first.line > 0 {
            self.cursors.insert(0, Cursor::new(first.line - 1, first.col));
            assert(self@.cursors =~= with_cursor_above(before).cursors);
        }
        false
    }

    /// Adds a cursor at the back of the set, a line below the last cursor of
    /// the set, unless that one is on the last line. The document stays as it
    /// is.
    pub fn add_below(&mut self) -> (changed: bool)
        requires
            old(self).wf(),
        ensures
            final(self)@ == with_cursor_below(old(self)@),
            final(self).wf(),
            !changed,
    {
        let ghost before = self@;
        let bottom: Cursor = self.cursors[self.cursors.len() - 1];
        if bottom.line < lines(&self.rope) {
            self.cursors.push(Cursor::new(bottom.line + 1, bottom.col));
            assert(self@.cursors =~= with_cursor_below(before).cursors);
        }
        false
    }

    /// Drops every cursor but the primary one. The document stays as it is.
    pub fn collapse_to_primary(&mut self) -> (changed: bool)
        requires
            old(self).wf(),
        ensures
            final(self)@ == collapsed(old(self)@),
            final(self).wf(),
            !changed,
    {
        let ghost before = self@;
        self.cursors.truncate(1);
        assert(self@.cursors =~= collapsed(before).cursors);
        false
    }

    /// Handles a key press. `height` is the number of lines that a page key
    /// moves by. Reports whether the document changed.
    pub fn key(&mut self, key: Key, height: usize) -> (changed: bool)
        requires
            old(self).wf(),
        ensures
            final(self)@ == after_key(old(self)@, key, height),
            final(self).wf(),
            changed == (final(self)@.text != old(self)@.text),
    {
        match key {
            Key::Up => self.move_all(Movement::Up(1)),
            Key::Down => self.move_all(Movement::Down(1)),
            Key::Left => self.move_all(Movement::Left(1)),
            Key::Right => self.move_all(Movement::Right(1)),
            Key::Home => self.move_all(Movement::Begin),
            Key::End => self.move_all(Movement::End),
            Key::PageUp => self.move_all(Movement::Up(height)),
            Key::PageDown => self.move_all(Movement::Down(height)),
            Key::Ctrl(c) => {
                if c == 'a' {
                    self.move_all(Movement::LineBegin)
                } else if c == 'e' {
                    self.move_all(Movement::LineEnd)
                } else {
                    false
                }
            },
            Key::Char(c) => self.insert_char(c),
            Key::Backspace => self.backspace(),
            Key::Delete => self.delete(),
            Key::Alt(c) => {
                if c == 'j' {
                    self.add_above()
                } else if c == 'k' {
                    self.add_below()
                } else {
                    false
                }
            },
            Key::Esc => self.collapse_to_primary(),
            _ => false,
        }
    }

    /// Handles a mouse event while the top left corner of the screen shows
    /// column `x` of line `y`: a press of the left button puts the primary
    /// cursor where the pointer is.
    pub fn mouse(&mut self, mouse: MouseEvent, x: usize, y: usize)
        requires
            old(self).wf(),
        ensures
            final(self)@ == after_mouse(old(self)@, mouse, x, y),
            final(self).wf(),
    {
        match mouse {
            MouseEvent::Press(MouseButton::Left, mouse_x, mouse_y) => {
                let ghost before = self@;
                // The document's length is a `usize`, and neither a line nor
                // a column of it is larger.
                let _: usize = self.rope.len_chars();
                let row: usize = mouse_y.saturating_sub(1) as usize;
                let column: usize = mouse_x.saturating_sub(1) as usize;
                let line: usize = y.saturating_add(row);
                let col: usize = x.saturating_add(column);
                proof {
                    lemma_shape_bound(before.text, at_most(line as nat, last_line(before.text)));
                }
                let mut cursor: Cursor = self.cursors[0];
                cursor.apply(&self.rope, Movement::Goto(line, col));
                self.cursors[0] = cursor;
                assert(self@.cursors =~= before.cursors.update(0, cursor@));
            },
            _ => {},
        }
    }

    /// Puts the primary cursor on a line, or on the last line where the
    /// document is shorter. Its desired column stays.
    pub fn gotoline(&mut self, line: usize)
        requires
            old(self).wf(),
        ensures
            final(self)@ == primary_moved(old(self)@, Movement::GotoLine(line)),
            final(self).wf(),
    {
        let ghost before = self@;
        let mut cursor: Cursor = self.cursors[0];
        cursor.apply(&self.rope, Movement::GotoLine(line));
        self.cursors[0] = cursor;
        assert(self@.cursors =~= primary_moved(before, Movement::GotoLine(line)).cursors);
    }
}

} // verus!
