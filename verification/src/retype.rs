//! The law of typing and taking back: characters typed at a single cursor and
//! then taken out again by as many backspaces leave the text and the cursor
//! as they were.

use crate::cursor::{locate, offset_of, settle};
use crate::edits::{edit_upto, edited, Edit, EditorState};
use crate::motion::{lemma_locate, lemma_locate_settled, lemma_settle};
use vstd::prelude::*;

verus! {

/// The state after the characters of `chars` were typed, one after the
/// other.
pub open spec fn typed(s: EditorState, chars: Seq<char>) -> EditorState
    decreases chars.len(),
{
    if chars.len() == 0 {
        s
    } else {
        edited(typed(s, chars.drop_last()), Edit::Insert(chars.last()))
    }
}

/// The state after `n` backspaces.
pub open spec fn backspaced(s: EditorState, n: nat) -> EditorState
    decreases n,
{
    if n == 0 {
        s
    } else {
        edited(backspaced(s, (n - 1) as nat), Edit::Backspace)
    }
}

/// With a single cursor, a character is put in at the cursor's offset, and
/// the cursor ends behind it.
pub proof fn lemma_insert_single(s: EditorState, ch: char)
    requires
        s.cursors.len() == 1,
    ensures
        edited(s, Edit::Insert(ch)).text == s.text.insert(
            offset_of(s.text, s.cursors[0]) as int,
            ch,
        ),
        edited(s, Edit::Insert(ch)).cursors.len() == 1,
        edited(s, Edit::Insert(ch)).cursors[0] == locate(
            edited(s, Edit::Insert(ch)).text,
            offset_of(s.text, s.cursors[0]) + 1,
        ),
{
    reveal_with_fuel(edit_upto, 2);
    lemma_settle(s.text, s.cursors[0]);
    assert(s.text.insert(offset_of(s.text, s.cursors[0]) as int, ch).len() != s.text.len());
}

/// With a single cursor that is not at the start of the text, a backspace
/// takes out the character before the cursor's offset, and the cursor ends
/// where that character was.
pub proof fn lemma_backspace_single(s: EditorState)
    requires
        s.cursors.len() == 1,
        offset_of(s.text, s.cursors[0]) > 0,
    ensures
        edited(s, Edit::Backspace).text == s.text.remove(offset_of(s.text, s.cursors[0]) - 1),
        edited(s, Edit::Backspace).cursors.len() == 1,
        edited(s, Edit::Backspace).cursors[0] == locate(
            edited(s, Edit::Backspace).text,
            (offset_of(s.text, s.cursors[0]) - 1) as nat,
        ),
{
    reveal_with_fuel(edit_upto, 2);
    lemma_settle(s.text, s.cursors[0]);
    assert(s.text.remove(offset_of(s.text, s.cursors[0]) - 1).len() != s.text.len());
}

/// Typing at a single cursor puts the characters in at the cursor's offset
/// and leaves the cursor behind them.
pub proof fn lemma_typed(s: EditorState, chars: Seq<char>)
    requires
        s.cursors.len() == 1,
        chars.len() >= 1,
    ensures
        typed(s, chars).text == s.text.subrange(0, offset_of(s.text, s.cursors[0]) as int) + chars
            + s.text.subrange(offset_of(s.text, s.cursors[0]) as int, s.text.len() as int),
        typed(s, chars).cursors.len() == 1,
        offset_of(typed(s, chars).text, typed(s, chars).cursors[0]) == offset_of(
            s.text,
            s.cursors[0],
        ) + chars.len(),
    decreases chars.len(),
{
    let o = offset_of(s.text, s.cursors[0]);
    let goal = s.text.subrange(0, o as int) + chars + s.text.subrange(
        o as int,
        s.text.len() as int,
    );
    lemma_settle(s.text, s.cursors[0]);
    let fewer = chars.drop_last();
    let r = typed(s, fewer);
    if chars.len() == 1 {
        assert(r == s);
    } else {
        lemma_typed(s, fewer);
    }
    lemma_insert_single(r, chars.last());
    assert(r.text.insert((o + fewer.len()) as int, chars.last()) =~= goal);
    lemma_locate(typed(s, chars).text, o + chars.len());
}

/// Backspaces at a single cursor take out the characters before the
/// cursor's offset and leave the cursor before the gap.
pub proof fn lemma_backspaced(s: EditorState, n: nat)
    requires
        s.cursors.len() == 1,
        n <= offset_of(s.text, s.cursors[0]),
    ensures
        backspaced(s, n).text == s.text.subrange(0, offset_of(s.text, s.cursors[0]) - n)
            + s.text.subrange(offset_of(s.text, s.cursors[0]) as int, s.text.len() as int),
        backspaced(s, n).cursors.len() == 1,
        offset_of(backspaced(s, n).text, backspaced(s, n).cursors[0]) == offset_of(
            s.text,
            s.cursors[0],
        ) - n,
        n >= 1 ==> backspaced(s, n).cursors[0] == locate(
            backspaced(s, n).text,
            (offset_of(s.text, s.cursors[0]) - n) as nat,
        ),
    decreases n,
{
    let m = offset_of(s.text, s.cursors[0]);
    let goal = s.text.subrange(0, m - n) + s.text.subrange(m as int, s.text.len() as int);
    lemma_settle(s.text, s.cursors[0]);
    if n == 0 {
        assert(s.text =~= goal);
    } else {
        let fewer = (n - 1) as nat;
        lemma_backspaced(s, fewer);
        let r = backspaced(s, fewer);
        lemma_backspace_single(r);
        assert(r.text.remove(m - n) =~= goal);
        lemma_locate(backspaced(s, n).text, (m - n) as nat);
    }
}

/// Typing characters at a single cursor and then pressing backspace as often
/// brings back the text, and the cursor to the position that it stood for.
pub proof fn law_type_then_backspace(s: EditorState, chars: Seq<char>)
    requires
        s.cursors.len() == 1,
    ensures
        backspaced(typed(s, chars), chars.len()).text == s.text,
        backspaced(typed(s, chars), chars.len()).cursors.len() == 1,
        settle(s.text, backspaced(typed(s, chars), chars.len()).cursors[0]) == settle(
            s.text,
            s.cursors[0],
        ),
        chars.len() >= 1 ==> backspaced(typed(s, chars), chars.len()).cursors[0] == settle(
            s.text,
            s.cursors[0],
        ),
{
    if chars.len() >= 1 {
        let o = offset_of(s.text, s.cursors[0]);
        let n = chars.len();
        let r = typed(s, chars);
        lemma_settle(s.text, s.cursors[0]);
        lemma_typed(s, chars);
        lemma_backspaced(r, n);
        let end = backspaced(r, n);
        assert(r.text.subrange(0, o as int) =~= s.text.subrange(0, o as int));
        assert(r.text.subrange((o + n) as int, r.text.len() as int) =~= s.text.subrange(
            o as int,
            s.text.len() as int,
        ));
        assert(end.text =~= s.text);
        lemma_locate_settled(s.text, settle(s.text, s.cursors[0]));
        lemma_settle(s.text, end.cursors[0]);
    }
}

} // verus!
