use edit_core::cursor::{Cursor, Movement};
use ropey::Rope;

fn moved(text: &str, line: usize, col: usize, movement: Movement) -> (usize, usize) {
    let rope = Rope::from_str(text);
    let mut cursor = Cursor::new(line, col);
    cursor.apply(&rope, movement);
    (cursor.line, cursor.col)
}

#[test]
fn new_keeps_line_and_column() {
    let cursor = Cursor::new(3, 7);
    assert_eq!(cursor.line(), 3);
    assert_eq!(cursor.line, 3);
    assert_eq!(cursor.col, 7);
}

#[test]
fn column_is_resolved_when_read() {
    let rope = Rope::from_str("abcdef\nab\nabcd");
    let cursor = Cursor::new(1, 5);
    assert_eq!(cursor.columns(&rope), 2);
    assert_eq!(cursor.col(&rope), 2);
    assert_eq!(cursor.col, 5);
    assert_eq!(cursor.pos(&rope), 9);
}

#[test]
fn pos_adds_line_start_and_column() {
    let rope = Rope::from_str("ab\ncd\nef");
    assert_eq!(Cursor::new(0, 0).pos(&rope), 0);
    assert_eq!(Cursor::new(0, 2).pos(&rope), 2);
    assert_eq!(Cursor::new(1, 0).pos(&rope), 3);
    assert_eq!(Cursor::new(2, 2).pos(&rope), 8);
}

#[test]
fn a_line_past_the_end_is_read_as_the_last_line() {
    let rope = Rope::from_str("ab\ncd");
    let cursor = Cursor::new(9, 1);
    assert_eq!(cursor.columns(&rope), 2);
    assert_eq!(cursor.col(&rope), 1);
    assert_eq!(cursor.pos(&rope), 4);
    assert_eq!(moved("ab\ncd", 9, 1, Movement::Up(1)), (0, 1));
    assert_eq!(moved("ab\ncd", 9, 1, Movement::GotoCol(0)), (1, 0));
}

#[test]
fn at_finds_the_position_of_an_offset() {
    let rope = Rope::from_str("ab\ncd\n");
    let found: Vec<(usize, usize)> = (0..=6)
        .map(|offset| Cursor::at(&rope, offset))
        .map(|c| (c.line, c.col))
        .collect();
    assert_eq!(
        found,
        vec![(0, 0), (0, 1), (0, 2), (1, 0), (1, 1), (1, 2), (2, 0)]
    );
    for offset in 0..=6 {
        assert_eq!(Cursor::at(&rope, offset).pos(&rope), offset);
    }
    assert_eq!(Cursor::at(&Rope::new(), 0), Cursor::new(0, 0));
}

#[test]
fn up_and_down_keep_the_desired_column() {
    let text = "abcdef\nab\nabcd";
    assert_eq!(moved(text, 0, 6, Movement::Down(1)), (1, 6));
    assert_eq!(moved(text, 1, 6, Movement::Down(1)), (2, 6));
    assert_eq!(moved(text, 2, 6, Movement::Up(2)), (0, 6));
}

#[test]
fn up_and_down_stop_at_the_first_and_last_line() {
    let text = "a\nb\nc";
    assert_eq!(moved(text, 1, 0, Movement::Up(5)), (0, 0));
    assert_eq!(moved(text, 1, 0, Movement::Down(5)), (2, 0));
    assert_eq!(moved(text, 1, 0, Movement::Down(usize::MAX)), (2, 0));
    assert_eq!(moved(text, 1, 0, Movement::Up(usize::MAX)), (0, 0));
}

#[test]
fn left_at_line_start_goes_to_end_of_previous_line() {
    assert_eq!(moved("ab\ncd", 1, 0, Movement::Left(1)), (0, 2));
}

#[test]
fn right_at_line_end_goes_to_start_of_next_line() {
    assert_eq!(moved("ab\ncd", 0, 2, Movement::Right(1)), (1, 0));
}

#[test]
fn left_and_right_start_from_the_resolved_column() {
    assert_eq!(moved("ab\ncd", 0, 9, Movement::Left(1)), (0, 1));
    assert_eq!(moved("ab\ncd", 0, 9, Movement::Right(1)), (1, 0));
    assert_eq!(moved("ab\ncd", 0, 9, Movement::Left(0)), (0, 2));
}

#[test]
fn left_and_right_by_several() {
    assert_eq!(moved("ab\ncd\nef", 2, 1, Movement::Left(5)), (0, 2));
    assert_eq!(moved("ab\ncd\nef", 0, 1, Movement::Right(5)), (2, 0));
}

#[test]
fn left_stops_at_the_start_of_the_document() {
    assert_eq!(moved("ab\ncd", 0, 1, Movement::Left(3)), (0, 0));
    assert_eq!(moved("ab\ncd", 0, 0, Movement::Left(1)), (0, 0));
    assert_eq!(moved("ab\ncd", 1, 2, Movement::Left(usize::MAX)), (0, 0));
}

#[test]
fn right_stops_at_the_end_of_the_document() {
    assert_eq!(moved("ab\ncd", 1, 1, Movement::Right(3)), (1, 2));
    assert_eq!(moved("ab\ncd", 1, 2, Movement::Right(1)), (1, 2));
    assert_eq!(moved("ab\ncd", 0, 0, Movement::Right(usize::MAX)), (1, 2));
}

#[test]
fn left_then_right_returns() {
    let rope = Rope::from_str("ab\ncd\nef");
    for n in 0..=7 {
        let mut cursor = Cursor::new(2, 1);
        cursor.apply(&rope, Movement::Left(n));
        cursor.apply(&rope, Movement::Right(n));
        assert_eq!(cursor, Cursor::new(2, 1));
    }
    for n in 0..=6 {
        let mut cursor = Cursor::new(0, 2);
        cursor.apply(&rope, Movement::Right(n));
        cursor.apply(&rope, Movement::Left(n));
        assert_eq!(cursor, Cursor::new(0, 2));
    }
}

#[test]
fn up_then_down_returns_with_the_desired_column() {
    let rope = Rope::from_str("abcdef\nab\nabcd");
    let mut cursor = Cursor::new(2, 4);
    cursor.apply(&rope, Movement::Up(1));
    assert_eq!(cursor.col(&rope), 2);
    cursor.apply(&rope, Movement::Down(1));
    assert_eq!(cursor, Cursor::new(2, 4));
    assert_eq!(cursor.col(&rope), 4);
}

#[test]
fn line_begin_goes_to_column_zero_then_a_line_up() {
    assert_eq!(moved("ab\ncd", 1, 2, Movement::LineBegin), (1, 0));
    assert_eq!(moved("ab\ncd", 1, 0, Movement::LineBegin), (0, 0));
    assert_eq!(moved("ab\ncd", 0, 0, Movement::LineBegin), (0, 0));
}

#[test]
fn line_end_goes_to_the_end_then_to_the_end_below() {
    assert_eq!(moved("ab\ncdef", 0, 1, Movement::LineEnd), (0, 2));
    assert_eq!(moved("ab\ncdef", 0, 2, Movement::LineEnd), (1, 4));
    assert_eq!(moved("ab\ncdef", 0, 7, Movement::LineEnd), (1, 4));
    assert_eq!(moved("ab\ncdef", 1, 4, Movement::LineEnd), (1, 4));
}

#[test]
fn begin_and_end_jump_to_the_ends_of_the_document() {
    assert_eq!(moved("ab\ncd\nefg", 1, 1, Movement::Begin), (0, 0));
    assert_eq!(moved("ab\ncd\nefg", 1, 1, Movement::End), (2, 3));
    assert_eq!(moved("ab\n", 0, 1, Movement::End), (1, 0));
}

#[test]
fn goto_resolves_each_coordinate() {
    assert_eq!(moved("ab\ncdef", 0, 0, Movement::Goto(1, 3)), (1, 3));
    assert_eq!(moved("ab\ncdef", 0, 0, Movement::Goto(1, 9)), (1, 4));
    assert_eq!(moved("ab\ncdef", 0, 0, Movement::Goto(9, 1)), (1, 1));
    assert_eq!(moved("ab\ncdef", 1, 4, Movement::Goto(0, 9)), (0, 2));
    assert_eq!(moved("ab\ncdef", 0, 0, Movement::Goto(usize::MAX, usize::MAX)), (1, 4));
}

#[test]
fn goto_line_keeps_the_column_and_goto_col_the_line() {
    assert_eq!(moved("ab\ncdef", 1, 4, Movement::GotoLine(0)), (0, 4));
    assert_eq!(moved("ab\ncdef", 0, 1, Movement::GotoLine(7)), (1, 1));
    assert_eq!(moved("ab\ncdef", 1, 4, Movement::GotoCol(1)), (1, 1));
    assert_eq!(moved("ab\ncdef", 0, 0, Movement::GotoCol(7)), (0, 2));
}

#[test]
fn every_movement_ends_inside_the_document() {
    let rope = Rope::from_str("abc\n\nde\n");
    let movements = [
        Movement::Up(2),
        Movement::Down(2),
        Movement::Left(3),
        Movement::Right(3),
        Movement::Begin,
        Movement::End,
        Movement::LineBegin,
        Movement::LineEnd,
        Movement::Goto(5, 5),
        Movement::GotoLine(5),
        Movement::GotoCol(5),
    ];
    for line in 0..6 {
        for col in 0..5 {
            for movement in movements {
                let mut cursor = Cursor::new(line, col);
                cursor.apply(&rope, movement);
                assert!(cursor.line < rope.len_lines());
                assert!(cursor.col(&rope) <= cursor.columns(&rope));
            }
        }
    }
}
