//! What an edit does to a text and to the cursors in it.
//!
//! For an edit every cursor is taken by its offset into the text. The cursors
//! edit in turn, in the order of the set, and each edit shifts the offsets
//! of all cursors that stand at or behind it, so that every cursor stays
//! between the characters where it stood. In the end every cursor is put at
//! the position of its offset. A cursor therefore ends in a column of its
//! line, and several cursors on one line do not drift apart from their
//! places. An edit that changes nothing in the text leaves the cursors as
//! they are, desired columns included.

use crate::cursor::{locate, moved, offset_of, Movement, Position};
use crate::lines::{last_line, with_char};
use vstd::prelude::*;

verus! {

/// The state of an editor: the text, and the cursors in the order of the set.
/// The first cursor is the primary one.
pub struct EditorState {
    pub text: Seq<char>,
    pub cursors: Seq<Position>,
}

/// An edit that every cursor makes at its own place.
#[derive(Clone, Copy, Debug, PartialEq, Eq, Structural)]
pub enum Edit {
    /// Puts a character in at the cursor; the cursor ends behind it.
    Insert(char),
    /// Takes out the character before the cursor, unless the cursor is at
    /// the start of the text.
    Backspace,
    /// Takes out the character at the cursor, unless the cursor is at the
    /// end of the text.
    Delete,
}

impl EditorState {
    /// There is a cursor, and every cursor is on a line of the text.
    pub open spec fn wf(self) -> bool {
        &&& self.cursors.len() >= 1
        &&& forall|i: int|
            0 <= i < self.cursors.len() ==> (#[trigger] self.cursors[i]).line <= last_line(
                self.text,
            )
    }

    /// The primary cursor.
    pub open spec fn primary(self) -> Position {
        self.cursors[0]
    }
}

/// Whether an edit at offset `at` changes the text: a backspace does
/// nothing at the start of the text, and a delete nothing at its end.
pub open spec fn takes_effect(text: Seq<char>, at: nat, edit: Edit) -> bool {
    match edit {
        Edit::Insert(_) => true,
        Edit::Backspace => at > 0,
        Edit::Delete => at < text.len(),
    }
}

/// The text after an edit at offset `at` that changes it.
pub open spec fn edit_text(text: Seq<char>, at: nat, edit: Edit) -> Seq<char> {
    match edit {
        Edit::Insert(ch) => with_char(text, at, ch),
        Edit::Backspace => text.remove(at - 1),
        Edit::Delete => text.remove(at as int),
    }
}

/// Where an offset lies after an edit at offset `at` that changes the text.
/// A character put in pushes on every offset at or behind `at`; a character
/// taken out pulls back every offset behind it.
pub open spec fn shifted(offset: nat, at: nat, edit: Edit) -> nat {
    match edit {
        Edit::Insert(_) => if offset >= at {
            offset + 1
        } else {
            offset
        },
        Edit::Backspace => if offset >= at {
            (offset - 1) as nat
        } else {
            offset
        },
        Edit::Delete => if offset > at {
            (offset - 1) as nat
        } else {
            offset
        },
    }
}

/// The text and the offsets of all cursors after cursor `k` has made its
/// edit.
pub open spec fn edit_step(text: Seq<char>, offsets: Seq<nat>, k: int, edit: Edit) -> (
    Seq<char>,
    Seq<nat>,
) {
    let at = offsets[k];
    if takes_effect(text, at, edit) {
        (
            edit_text(text, at, edit),
            Seq::new(offsets.len(), |j: int| shifted(offsets[j], at, edit)),
        )
    } else {
        (text, offsets)
    }
}

/// The text and the offsets of all cursors after the first `k` cursors have
/// made their edit, one after the other.
pub open spec fn edit_upto(text: Seq<char>, offsets: Seq<nat>, edit: Edit, k: nat) -> (
    Seq<char>,
    Seq<nat>,
)
    decreases k,
{
    if k == 0 {
        (text, offsets)
    } else {
        let before = edit_upto(text, offsets, edit, (k - 1) as nat);
        edit_step(before.0, before.1, k - 1, edit)
    }
}

/// The offsets of the cursors of a state, in the order of the set.
pub open spec fn offsets_of(s: EditorState) -> Seq<nat> {
    Seq::new(s.cursors.len(), |j: int| offset_of(s.text, s.cursors[j]))
}

/// The state whose cursors stand at the given offsets into the text.
pub open spec fn at_offsets(text: Seq<char>, offsets: Seq<nat>) -> EditorState {
    EditorState { text: text, cursors: Seq::new(offsets.len(), |j: int| locate(text, offsets[j])) }
}

/// The state after every cursor has made an edit. Where no cursor changed
/// the text, the state is as it was; otherwise every cursor stands at its
/// offset into the new text.
pub open spec fn edited(s: EditorState, edit: Edit) -> EditorState {
    let after = edit_upto(s.text, offsets_of(s), edit, s.cursors.len());
    if after.0 == s.text {
        s
    } else {
        at_offsets(after.0, after.1)
    }
}

/// The state after every cursor has followed a movement.
pub open spec fn all_moved(s: EditorState, m: Movement) -> EditorState {
    EditorState {
        text: s.text,
        cursors: Seq::new(s.cursors.len(), |i: int| moved(s.text, s.cursors[i], m)),
    }
}

/// The state with one more cursor in front: a line above the first cursor,
/// in the same desired column. Nothing is added above the first line.
pub open spec fn with_cursor_above(s: EditorState) -> EditorState {
    let first = s.cursors.first();
    if first.line > 0 {
        EditorState {
            text: s.text,
            cursors: s.cursors.insert(
                0,
                Position { line: (first.line - 1) as nat, col: first.col },
            ),
        }
    } else {
        s
    }
}

/// The state with one more cursor at the back: a line below the last cursor
/// of the set, in the same desired column. Nothing is added below the last
/// line.
pub open spec fn with_cursor_below(s: EditorState) -> EditorState {
    let bottom = s.cursors.last();
    if bottom.line < last_line(s.text) {
        EditorState {
            text: s.text,
            cursors: s.cursors.push(Position { line: bottom.line + 1, col: bottom.col }),
        }
    } else {
        s
    }
}

/// The state with the primary cursor alone.
pub open spec fn collapsed(s: EditorState) -> EditorState {
    EditorState { text: s.text, cursors: s.cursors.subrange(0, 1) }
}

/// The state with the primary cursor moved, and the others left alone.
pub open spec fn primary_moved(s: EditorState, m: Movement) -> EditorState {
    EditorState { text: s.text, cursors: s.cursors.update(0, moved(s.text, s.cursors[0], m)) }
}

} // verus!
