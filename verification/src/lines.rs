//! The line structure of a text, as a function of its characters.
//!
//! A text is a sequence of characters. The line feed (U+000A) is the only
//! line terminator: a line starts at the beginning of the text and after every
//! line feed, and a line feed belongs to the line that it ends.

use vstd::prelude::*;

verus! {

/// Number of line feeds at or after offset `from`.
pub open spec fn newlines_from(text: Seq<char>, from: nat) -> nat
    decreases text.len() - from,
{
    if from >= text.len() {
        0
    } else if text[from as int] == '\n' {
        1 + newlines_from(text, from + 1)
    } else {
        newlines_from(text, from + 1)
    }
}

/// Number of line feeds before offset `upto`.
pub open spec fn newlines_before(text: Seq<char>, upto: nat) -> nat
    decreases upto,
{
    if upto == 0 || upto > text.len() {
        0
    } else if text[upto - 1] == '\n' {
        1 + newlines_before(text, (upto - 1) as nat)
    } else {
        newlines_before(text, (upto - 1) as nat)
    }
}

/// Index of the last line: the number of line feeds in the text.
pub open spec fn last_line(text: Seq<char>) -> nat {
    newlines_from(text, 0)
}

/// Number of lines. A text always has at least one line, and a text that ends
/// in a line feed has an empty last line.
pub open spec fn line_count(text: Seq<char>) -> nat {
    last_line(text) + 1
}

/// Offset of the first line feed at or after `from`, or the length of the
/// text where there is none.
pub open spec fn line_stop(text: Seq<char>, from: nat) -> nat
    decreases text.len() - from,
{
    if from >= text.len() {
        text.len()
    } else if text[from as int] == '\n' {
        from
    } else {
        line_stop(text, from + 1)
    }
}

/// Offset of the first character of line `line`. For a line index past the
/// last line this is the length of the text.
pub open spec fn line_start(text: Seq<char>, line: nat) -> nat
    decreases line,
{
    if line == 0 {
        0
    } else {
        let stop = line_stop(text, line_start(text, (line - 1) as nat));
        if stop < text.len() {
            stop + 1
        } else {
            text.len()
        }
    }
}

/// The characters of line `line`, its line feed included where it has one.
pub open spec fn line_text(text: Seq<char>, line: nat) -> Seq<char> {
    text.subrange(line_start(text, line) as int, line_start(text, line + 1) as int)
}

/// Number of characters of `line` that come before its line feed, if any.
pub open spec fn visible_len(line: Seq<char>) -> nat {
    if line.len() > 0 && line.last() == '\n' {
        (line.len() - 1) as nat
    } else {
        line.len()
    }
}

/// Number of columns of line `line`: its characters without the line feed.
pub open spec fn columns_of(text: Seq<char>, line: nat) -> nat {
    visible_len(line_text(text, line))
}

/// A text with the single character `ch` put in at `offset`.
pub open spec fn with_char(text: Seq<char>, offset: nat, ch: char) -> Seq<char> {
    text.insert(offset as int, ch)
}

/// A text without the characters from `start` up to `end`.
pub open spec fn without_range(text: Seq<char>, start: nat, end: nat) -> Seq<char> {
    text.subrange(0, start as int) + text.subrange(end as int, text.len() as int)
}

/// `line_stop` lies between `from` and the end of the text, nothing before it
/// is a line feed, and where it is inside the text it is one.
pub proof fn lemma_line_stop(text: Seq<char>, from: nat)
    requires
        from <= text.len(),
    ensures
        from <= line_stop(text, from) <= text.len(),
        forall|i: int| from <= i < line_stop(text, from) ==> text[i] != '\n',
        line_stop(text, from) < text.len() ==> text[line_stop(text, from) as int] == '\n',
    decreases text.len() - from,
{
    if from < text.len() && text[from as int] != '\n' {
        lemma_line_stop(text, from + 1);
    }
}

/// The line feeds from `from` on are the one at the next line stop, if any,
/// and those behind it.
pub proof fn lemma_newlines_after_stop(text: Seq<char>, from: nat)
    requires
        from <= text.len(),
    ensures
        newlines_from(text, from) == if line_stop(text, from) < text.len() {
            1 + newlines_from(text, line_stop(text, from) + 1)
        } else {
            0
        },
    decreases text.len() - from,
{
    if from < text.len() && text[from as int] != '\n' {
        lemma_newlines_after_stop(text, from + 1);
    }
}

/// A line never starts past the end of the text.
pub proof fn lemma_line_start_bound(text: Seq<char>, line: nat)
    ensures
        line_start(text, line) <= text.len(),
    decreases line,
{
    if line > 0 {
        lemma_line_start_bound(text, (line - 1) as nat);
        lemma_line_stop(text, line_start(text, (line - 1) as nat));
    }
}

/// Behind the start of line `line` lie as many line feeds as there are lines
/// after it.
pub proof fn lemma_lines_remaining(text: Seq<char>, line: nat)
    requires
        line <= last_line(text),
    ensures
        newlines_from(text, line_start(text, line)) == last_line(text) - line,
    decreases line,
{
    if line > 0 {
        let prev = (line - 1) as nat;
        lemma_lines_remaining(text, prev);
        lemma_line_start_bound(text, prev);
        lemma_newlines_after_stop(text, line_start(text, prev));
    }
}

/// The shape of a line of the text: its columns run up to the next line
/// stop; a line before the last ends in a line feed, behind which the next
/// line starts; the last line runs to the end of the text.
pub proof fn lemma_line_shape(text: Seq<char>, line: nat)
    requires
        line <= last_line(text),
    ensures
        line_start(text, line) + columns_of(text, line) == line_stop(
            text,
            line_start(text, line),
        ),
        line_start(text, line) + columns_of(text, line) <= text.len(),
        forall|i: int|
            line_start(text, line) <= i < line_start(text, line) + columns_of(text, line)
                ==> text[i] != '\n',
        line < last_line(text) ==> {
            &&& line_start(text, line) + columns_of(text, line) < text.len()
            &&& text[(line_start(text, line) + columns_of(text, line)) as int] == '\n'
            &&& line_start(text, line + 1) == line_start(text, line) + columns_of(text, line) + 1
        },
        line == last_line(text) ==> {
            &&& line_start(text, line) + columns_of(text, line) == text.len()
            &&& line_start(text, line + 1) == text.len()
        },
{
    let start = line_start(text, line);
    lemma_line_start_bound(text, line);
    lemma_lines_remaining(text, line);
    lemma_newlines_after_stop(text, start);
    lemma_line_stop(text, start);
    let stop = line_stop(text, start);
    let row = line_text(text, line);
    if stop < text.len() {
        assert(row.last() == text[stop as int]);
    } else if row.len() > 0 {
        assert(row.last() == text[text.len() - 1]);
    }
}

/// The line feeds of a text are those before an offset and those from it on.
pub proof fn lemma_newlines_split(text: Seq<char>, at: nat)
    requires
        at <= text.len(),
    ensures
        newlines_before(text, at) + newlines_from(text, at) == last_line(text),
    decreases at,
{
    if at > 0 {
        lemma_newlines_split(text, (at - 1) as nat);
    }
}

/// A stretch without line feeds adds nothing to their count.
pub proof fn lemma_newlines_skip(text: Seq<char>, from: nat, upto: nat)
    requires
        from <= upto <= text.len(),
        forall|i: int| from <= i < upto ==> text[i] != '\n',
    ensures
        newlines_from(text, from) == newlines_from(text, upto),
    decreases upto - from,
{
    if from < upto {
        lemma_newlines_skip(text, from + 1, upto);
    }
}

/// There are no more line feeds from an offset on than characters.
pub proof fn lemma_newlines_bound(text: Seq<char>, from: nat)
    ensures
        newlines_from(text, from) + from <= text.len() || newlines_from(text, from) == 0,
    decreases text.len() - from,
{
    if from < text.len() {
        lemma_newlines_bound(text, from + 1);
    }
}

/// Neither the index of a line nor a column of a line exceeds the length of
/// the text.
pub proof fn lemma_shape_bound(text: Seq<char>, line: nat)
    requires
        line <= last_line(text),
    ensures
        last_line(text) <= text.len(),
        columns_of(text, line) <= text.len(),
{
    lemma_newlines_bound(text, 0);
    lemma_line_shape(text, line);
}

/// Lines lie in the text in order: a line ends before a later one starts.
pub proof fn lemma_line_order(text: Seq<char>, a: nat, b: nat)
    requires
        a < b <= last_line(text),
    ensures
        line_start(text, a) + columns_of(text, a) < line_start(text, b),
    decreases b,
{
    lemma_line_shape(text, a);
    if a + 1 < b {
        lemma_line_order(text, a, (b - 1) as nat);
        lemma_line_shape(text, (b - 1) as nat);
    }
}

} // verus!
