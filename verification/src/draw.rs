//! A row of the screen: the text of a line inside a window of columns, with
//! an inverted cell for every cursor that stands there.

use crate::buffer::columns;
use crate::cursor::{settled_col, Cursor};
use crate::editor::{positions, Editor};
use crate::edits::EditorState;
use crate::lines::{
    columns_of, last_line, lemma_line_shape, lemma_line_start_bound, line_start,
};
use crate::rope::{rope_text, slice_range, slice_string, slice_text};
use crate::term::{
    invert_seq, push_char, reset_seq, sort_ascending, style_invert, style_reset,
};
use ropey::Rope;
use vstd::prelude::*;
use vstd::string::StringExecFns;

verus! {

/// Whether a cursor of the set stands in column `col` of line `line`.
pub open spec fn caret_at(s: EditorState, line: nat, col: nat) -> bool {
    exists|i: int|
        0 <= i < s.cursors.len() && (#[trigger] s.cursors[i]).line == line && settled_col(
            s.text,
            s.cursors[i],
        ) == col
}

/// A character in inverted colours.
pub open spec fn inverted(ch: char) -> Seq<char> {
    invert_seq().push(ch) + reset_seq()
}

/// What is drawn for column `col` of line `line`: the character there,
/// inverted where a cursor stands on it; an inverted blank for a cursor at
/// the end of the line; nothing past the end of the line.
pub open spec fn cell(s: EditorState, line: nat, col: nat) -> Seq<char> {
    if col < columns_of(s.text, line) {
        let ch = s.text[(line_start(s.text, line) + col) as int];
        if caret_at(s, line, col) {
            inverted(ch)
        } else {
            seq![ch]
        }
    } else if col == columns_of(s.text, line) && caret_at(s, line, col) {
        inverted(' ')
    } else {
        Seq::empty()
    }
}

/// What is drawn for the columns from `from` up to `to` of line `line`.
pub open spec fn row(s: EditorState, line: nat, from: nat, to: nat) -> Seq<char>
    decreases to,
{
    if to <= from {
        Seq::empty()
    } else {
        row(s, line, from, (to - 1) as nat) + cell(s, line, (to - 1) as nat)
    }
}

/// A stretch of a row is the stretch up to a column and the stretch from it.
pub proof fn lemma_row_split(s: EditorState, line: nat, from: nat, mid: nat, to: nat)
    requires
        from <= mid <= to,
    ensures
        row(s, line, from, to) == row(s, line, from, mid) + row(s, line, mid, to),
    decreases to,
{
    if mid < to {
        lemma_row_split(s, line, from, mid, (to - 1) as nat);
    }
}

/// A stretch of a row without cursors is the text of the line there.
pub proof fn lemma_row_plain(s: EditorState, line: nat, from: nat, to: nat)
    requires
        line <= last_line(s.text),
        from <= to <= columns_of(s.text, line),
        forall|c: nat| from <= c < to ==> !caret_at(s, line, c),
    ensures
        row(s, line, from, to) == s.text.subrange(
            (line_start(s.text, line) + from) as int,
            (line_start(s.text, line) + to) as int,
        ),
    decreases to,
{
    lemma_line_shape(s.text, line);
    if from < to {
        lemma_row_plain(s, line, from, (to - 1) as nat);
    }
}

/// Nothing is drawn past the cell behind the end of a line.
pub proof fn lemma_row_beyond(s: EditorState, line: nat, from: nat, to: nat)
    requires
        columns_of(s.text, line) < from,
    ensures
        row(s, line, from, to) == Seq::<char>::empty(),
    decreases to,
{
    if from < to {
        lemma_row_beyond(s, line, from, (to - 1) as nat);
    }
}

/// Nothing is drawn behind the end of a line where no cursor stands there.
pub proof fn lemma_row_open_end(s: EditorState, line: nat, from: nat, to: nat)
    requires
        columns_of(s.text, line) <= from,
        !caret_at(s, line, columns_of(s.text, line)),
    ensures
        row(s, line, from, to) == Seq::<char>::empty(),
    decreases to,
{
    if from < to {
        lemma_row_open_end(s, line, from, (to - 1) as nat);
    }
}

/// A column is in the window of a row and holds a cursor.
pub open spec fn in_window(
    s: EditorState,
    line: usize,
    left: usize,
    width: usize,
    col: usize,
) -> bool {
    &&& left <= col <= columns_of(s.text, line as nat)
    &&& col - left < width
    &&& caret_at(s, line as nat, col as nat)
}

impl Editor {
    /// The columns in which cursors stand on line `index`, from `left` on and
    /// fewer than `width` columns further, in ascending order.
    fn carets(&self, index: usize, max: usize, left: usize, width: usize) -> (found: Vec<usize>)
        requires
            self.wf(),
            index <= last_line(self@.text),
            max == columns_of(self@.text, index as nat),
        ensures
            forall|i: int, j: int| 0 <= i <= j < found@.len() ==> found@[i] <= found@[j],
            forall|i: int|
                0 <= i < found@.len() ==> in_window(self@, index, left, width, #[trigger] found@[i]),
            forall|c: nat|
                left <= c < left + width && caret_at(self@, index as nat, c) ==> exists|i: int|
                    0 <= i < found@.len() && #[trigger] found@[i] == c,
    {
        let ghost s = self@;
        let cursors = self.cursors();
        let mut found: Vec<usize> = Vec::new();
        let mut i: usize = 0;
        while i < cursors.len()
            invariant
                i <= cursors.len(),
                positions(cursors@) == s.cursors,
                index <= last_line(s.text),
                max == columns_of(s.text, index as nat),
                forall|k: int|
                    0 <= k < found@.len() ==> in_window(s, index, left, width, #[trigger] found@[k]),
                forall|j: int|
                    0 <= j < i && (#[trigger] s.cursors[j]).line == index && left <= settled_col(
                        s.text,
                        s.cursors[j],
                    ) < left + width ==> found@.contains(settled_col(s.text, s.cursors[j]) as usize),
            decreases cursors.len() - i,
        {
            let cursor: Cursor = cursors[i];
            assert(s.cursors[i as int] == cursor@);
            if cursor.line == index {
                let col: usize = if cursor.col <= max {
                    cursor.col
                } else {
                    max
                };
                assert(col == settled_col(s.text, s.cursors[i as int]));
                if left <= col && col - left < width {
                    let ghost earlier = found@;
                    found.push(col);
                    assert(caret_at(s, index as nat, col as nat));
                    assert forall|j: int|
                        0 <= j < i + 1 && (#[trigger] s.cursors[j]).line == index && left
                            <= settled_col(s.text, s.cursors[j]) < left + width implies found@.contains(
                        settled_col(s.text, s.cursors[j]) as usize,
                    ) by {
                        let c = settled_col(s.text, s.cursors[j]) as usize;
                        if j < i {
                            assert(earlier.contains(c));
                            let k = choose|k: int| 0 <= k < earlier.len() && earlier[k] == c;
                            assert(found@[k] == c);
                        } else {
                            assert(found@[earlier.len() as int] == c);
                        }
                    }
                }
            }
            i += 1;
        }
        let ghost unsorted = found@;
        sort_ascending(&mut found);
        proof {
            broadcast use vstd::seq_lib::to_multiset_contains;

            assert forall|k: int| 0 <= k < found@.len() implies in_window(
                s,
                index,
                left,
                width,
                #[trigger] found@[k],
            ) by {
                assert(found@.contains(found@[k]));
                assert(found@.to_multiset().contains(found@[k]));
                assert(unsorted.contains(found@[k]));
            }
            assert forall|c: nat|
                left <= c < left + width && caret_at(s, index as nat, c) implies exists|i: int|
                0 <= i < found@.len() && #[trigger] found@[i] == c by {
                let j = choose|j: int|
                    0 <= j < s.cursors.len() && (#[trigger] s.cursors[j]).line == index
                        && settled_col(s.text, s.cursors[j]) == c;
                assert(unsorted.contains(c as usize));
                assert(unsorted.to_multiset().contains(c as usize));
                assert(found@.contains(c as usize));
            }
        }
        found
    }

    /// Draws line `index` behind `prefix` at the end of `out`: the columns
    /// from `left` on, `width` of them at most, with an inverted cell for
    /// every cursor that stands there.
    pub fn draw(&self, out: &mut String, prefix: &str, index: usize, left: usize, width: usize)
        requires
            self.wf(),
            index <= last_line(self@.text),
        ensures
            final(out)@ == old(out)@ + prefix@ + row(
                self@,
                index as nat,
                left as nat,
                (left + width) as nat,
            ),
    {
        let ghost s = self@;
        let ghost line = index as nat;
        let ghost head = out@ + prefix@;
        let rope: &Rope = self.rope();
        // The document's length is a `usize`, and no offset into it is larger.
        let _: usize = rope.len_chars();
        let start: usize = rope.line_to_char(index);
        let text = rope.line(index);
        let max: usize = columns(text);
        proof {
            lemma_line_shape(s.text, line);
        }
        let found: Vec<usize> = self.carets(index, max, left, width);
        out.append(prefix);
        let mut at: usize = left;
        let mut open: bool = true;
        let mut k: usize = 0;
        assert(out@ =~= head + row(s, line, left as nat, at as nat));
        assert(found@.len() > 0 ==> in_window(s, index, left, width, found@[0]));
        while k < found.len()
            invariant_except_break
                open,
                k <= found@.len(),
            invariant
                s == self@,
                self.wf(),
                line == index,
                line <= last_line(s.text),
                rope_text(*rope) == s.text,
                s.text.len() <= usize::MAX,
                start == line_start(s.text, line),
                max == columns_of(s.text, line),
                start + max <= s.text.len(),
                slice_text(text) == crate::lines::line_text(s.text, line),
                forall|i: int, j: int| 0 <= i <= j < found@.len() ==> found@[i] <= found@[j],
                forall|i: int|
                    0 <= i < found@.len() ==> in_window(s, index, left, width, #[trigger] found@[i]),
                forall|c: nat|
                    left <= c < left + width && caret_at(s, line, c) ==> exists|i: int|
                        0 <= i < found@.len() && #[trigger] found@[i] == c,
                left <= at,
                open ==> at <= max || found@.len() == 0,
                open ==> at <= left + width,
                open ==> forall|i: int| 0 <= i < k ==> #[trigger] found@[i] < at,
                open ==> out@ == head + row(s, line, left as nat, at as nat),
                !open ==> out@ == head + row(s, line, left as nat, (left + width) as nat),
            ensures
                open ==> k == found@.len(),
            decreases found@.len() - k,
        {
            let col: usize = found[k];
            if col >= at {
                proof {
                    assert forall|c: nat| at <= c < col implies !caret_at(s, line, c) by {
                        if caret_at(s, line, c) {
                            let i = choose|i: int|
                                0 <= i < found@.len() && #[trigger] found@[i] == c;
                            if i < k {
                                assert(found@[i] < at);
                            } else {
                                assert(found@[k as int] <= found@[i]);
                            }
                        }
                    }
                    lemma_row_plain(s, line, at as nat, col as nat);
                    lemma_row_split(s, line, left as nat, at as nat, col as nat);
                    assert(in_window(s, index, left, width, found@[k as int]));
                    lemma_row_split(s, line, left as nat, col as nat, (col + 1) as nat);
                    assert(row(s, line, col as nat, (col + 1) as nat) =~= cell(
                        s,
                        line,
                        col as nat,
                    )) by {
                        assert(row(s, line, col as nat, col as nat) =~= Seq::<char>::empty());
                    }
                }
                let plain = slice_string(&slice_range(rope, start + at, start + col));
                out.append(plain.as_str());
                let invert = style_invert();
                out.append(invert.as_str());
                let reset = style_reset();
                if col < max {
                    let ch: char = text.char(col);
                    push_char(out, ch);
                    out.append(reset.as_str());
                    proof {
                        lemma_line_shape(s.text, line);
                        lemma_line_start_bound(s.text, line + 1);
                        assert(ch == s.text[(start + col) as int]);
                        assert(cell(s, line, col as nat) == inverted(ch));
                        assert(row(s, line, left as nat, (col + 1) as nat) == row(
                            s,
                            line,
                            left as nat,
                            at as nat,
                        ) + plain@ + inverted(ch));
                    }
                    at = col + 1;
                    assert(out@ =~= head + row(s, line, left as nat, at as nat));
                } else {
                    push_char(out, ' ');
                    out.append(reset.as_str());
                    open = false;
                    proof {
                        lemma_row_split(
                            s,
                            line,
                            left as nat,
                            (col + 1) as nat,
                            (left + width) as nat,
                        );
                        lemma_row_beyond(s, line, (col + 1) as nat, (left + width) as nat);
                        assert(out@ =~= head + row(s, line, left as nat, (left + width) as nat));
                    }
                    break ;
                }
            }
            k += 1;
        }
        if open {
            let stop: usize = if left >= max {
                max
            } else if width >= max - left {
                max
            } else {
                left + width
            };
            proof {
                assert forall|c: nat| at <= c < left + width && c <= max implies !caret_at(
                    s,
                    line,
                    c,
                ) by {
                    if caret_at(s, line, c) {
                        let i = choose|i: int| 0 <= i < found@.len() && #[trigger] found@[i] == c;
                        assert(found@[i] < at);
                    }
                }
            }
            if at < stop {
                proof {
                    lemma_row_plain(s, line, at as nat, stop as nat);
                    lemma_row_split(s, line, left as nat, at as nat, stop as nat);
                    lemma_row_split(s, line, left as nat, stop as nat, (left + width) as nat);
                    if stop < left + width {
                        lemma_row_open_end(s, line, stop as nat, (left + width) as nat);
                    } else {
                        assert(row(s, line, stop as nat, (left + width) as nat) =~= Seq::<
                            char,
                        >::empty());
                    }
                }
                let plain = slice_string(&slice_range(rope, start + at, start + stop));
                out.append(plain.as_str());
                assert(out@ =~= head + row(s, line, left as nat, (left + width) as nat));
            } else {
                proof {
                    lemma_row_split(s, line, left as nat, at as nat, (left + width) as nat);
                    if at < left + width {
                        if at <= max {
                            lemma_row_open_end(s, line, at as nat, (left + width) as nat);
                        } else {
                            lemma_row_beyond(s, line, at as nat, (left + width) as nat);
                        }
                    } else {
                        assert(row(s, line, at as nat, (left + width) as nat) =~= Seq::<
                            char,
                        >::empty());
                    }
                    assert(out@ =~= head + row(s, line, left as nat, (left + width) as nat));
                }
            }
        }
    }
}

} // verus!
