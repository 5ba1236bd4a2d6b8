//! What this library takes on trust from the `termion` crate and from `std`:
//! the escape sequences that drive the terminal, and two operations on
//! vectors and strings.

use vstd::prelude::*;

verus! {

/// The escape character and the bracket that open every control sequence.
pub open spec fn csi() -> Seq<char> {
    seq!['\u{1b}', '[']
}

/// The sequence that clears the whole screen.
pub open spec fn clear_all_seq() -> Seq<char> {
    csi() + seq!['2', 'J']
}

/// The sequence that resets the text style.
pub open spec fn reset_seq() -> Seq<char> {
    csi() + seq!['m']
}

/// The sequence that switches to inverted colours.
pub open spec fn invert_seq() -> Seq<char> {
    csi() + seq!['7', 'm']
}

/// The sequence that hides the terminal's own cursor.
pub open spec fn hide_seq() -> Seq<char> {
    csi() + seq!['?', '2', '5', 'l']
}

/// The sequence that shows the terminal's own cursor.
pub open spec fn show_seq() -> Seq<char> {
    csi() + seq!['?', '2', '5', 'h']
}

/// The character of a decimal digit.
pub open spec fn digit(d: nat) -> char {
    if d == 0 {
        '0'
    } else if d == 1 {
        '1'
    } else if d == 2 {
        '2'
    } else if d == 3 {
        '3'
    } else if d == 4 {
        '4'
    } else if d == 5 {
        '5'
    } else if d == 6 {
        '6'
    } else if d == 7 {
        '7'
    } else if d == 8 {
        '8'
    } else {
        '9'
    }
}

/// A number in decimal digits, without leading zeros.
pub open spec fn decimal(n: nat) -> Seq<char>
    decreases n,
{
    if n < 10 {
        seq![digit(n)]
    } else {
        decimal(n / 10).push(digit(n % 10))
    }
}

/// The sequence that puts the terminal's cursor in column `x` of row `y`,
/// both counted from one.
pub open spec fn goto_seq(x: nat, y: nat) -> Seq<char> {
    csi() + decimal(y) + seq![';'] + decimal(x) + seq!['H']
}

/// `Display` of `termion::clear::All`.
#[verifier::external_body]
pub(crate) fn clear_all() -> (s: String)
    ensures
        s@ == clear_all_seq(),
{
    format!("{}", termion::clear::All)
}

/// `Display` of `termion::style::Reset`.
#[verifier::external_body]
pub(crate) fn style_reset() -> (s: String)
    ensures
        s@ == reset_seq(),
{
    format!("{}", termion::style::Reset)
}

/// `Display` of `termion::style::Invert`.
#[verifier::external_body]
pub(crate) fn style_invert() -> (s: String)
    ensures
        s@ == invert_seq(),
{
    format!("{}", termion::style::Invert)
}

/// `Display` of `termion::cursor::Hide`.
#[verifier::external_body]
pub(crate) fn cursor_hide() -> (s: String)
    ensures
        s@ == hide_seq(),
{
    format!("{}", termion::cursor::Hide)
}

/// `Display` of `termion::cursor::Show`.
#[verifier::external_body]
pub(crate) fn cursor_show() -> (s: String)
    ensures
        s@ == show_seq(),
{
    format!("{}", termion::cursor::Show)
}

/// `Display` of `termion::cursor::Goto`: the row, then the column, in
/// decimal. Both count from one, and a debug build rejects the pair of
/// zeros.
#[verifier::external_body]
pub(crate) fn cursor_goto(x: u16, y: u16) -> (s: String)
    requires
        x >= 1,
        y >= 1,
    ensures
        s@ == goto_seq(x as nat, y as nat),
{
    format!("{}", termion::cursor::Goto(x, y))
}

/// `String::push`: one more character at the end.
#[verifier::external_body]
pub(crate) fn push_char(s: &mut String, ch: char)
    ensures
        final(s)@ == old(s)@.push(ch),
{
    s.push(ch)
}

/// `slice::sort` on numbers: the same numbers, in ascending order.
#[verifier::external_body]
pub(crate) fn sort_ascending(v: &mut Vec<usize>)
    ensures
        final(v)@.to_multiset() == old(v)@.to_multiset(),
        forall|i: int, j: int| 0 <= i <= j < final(v)@.len() ==> final(v)@[i] <= final(v)@[j],
{
    v.sort()
}

} // verus!
