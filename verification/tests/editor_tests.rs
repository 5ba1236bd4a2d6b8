use edit_core::cursor::Cursor;
use edit_core::editor::Editor;
use edit_core::input::{Key, MouseButton, MouseEvent};
use ropey::Rope;

fn editor(text: &str) -> Editor {
    Editor::new(Rope::from_str(text))
}

fn at(editor: &Editor) -> Vec<(usize, usize)> {
    editor.cursors().iter().map(|c| (c.line, c.col)).collect()
}

fn type_text(editor: &mut Editor, text: &str) {
    for ch in text.chars() {
        assert!(editor.key(Key::Char(ch), 10));
    }
}

#[test]
fn new_editor_has_one_cursor_at_the_start() {
    let e = editor("ab\ncd");
    assert_eq!(at(&e), vec![(0, 0)]);
    assert_eq!(e.line(), 0);
    assert_eq!(e.col(), 0);
    assert_eq!(e.contents(), "ab\ncd");
}

#[test]
fn typing_into_an_empty_document() {
    let mut e = Editor::new(Rope::new());
    type_text(&mut e, "ab\ncd");
    assert_eq!(e.rope().len_lines(), 2);
    assert_eq!(e.rope().line(0).to_string(), "ab\n");
    assert_eq!(e.rope().line(1).to_string(), "cd");
    assert_eq!(e.contents(), "ab\ncd");
    assert_eq!(at(&e), vec![(1, 2)]);
    assert_eq!(e.line(), 1);
    assert_eq!(e.col(), 2);
}

#[test]
fn insert_char_reports_a_change() {
    let mut e = editor("ab");
    assert!(e.insert_char('x'));
    assert_eq!(e.contents(), "xab");
    assert_eq!(at(&e), vec![(0, 1)]);
}

#[test]
fn insert_in_the_middle_of_a_line() {
    let mut e = editor("ab\ncd");
    e.mouse(MouseEvent::Press(MouseButton::Left, 2, 2), 0, 0);
    assert_eq!(at(&e), vec![(1, 1)]);
    e.insert_char('x');
    assert_eq!(e.contents(), "ab\ncxd");
    assert_eq!(at(&e), vec![(1, 2)]);
}

#[test]
fn backspace_takes_out_the_character_before_the_cursor() {
    let mut e = editor("ab\ncd");
    e.mouse(MouseEvent::Press(MouseButton::Left, 3, 1), 0, 0);
    assert!(e.backspace());
    assert_eq!(e.contents(), "a\ncd");
    assert_eq!(at(&e), vec![(0, 1)]);
}

#[test]
fn backspace_at_a_line_start_joins_lines() {
    let mut e = editor("ab\ncd");
    e.gotoline(1);
    assert!(e.key(Key::Backspace, 10));
    assert_eq!(e.contents(), "abcd");
    assert_eq!(at(&e), vec![(0, 2)]);
}

#[test]
fn backspace_at_the_start_does_nothing() {
    let mut e = editor("ab");
    assert!(!e.backspace());
    assert_eq!(e.contents(), "ab");
    assert_eq!(at(&e), vec![(0, 0)]);
}

#[test]
fn delete_takes_out_the_character_at_the_cursor() {
    let mut e = editor("ab\ncd");
    assert!(e.delete());
    assert_eq!(e.contents(), "b\ncd");
    assert_eq!(at(&e), vec![(0, 0)]);
}

#[test]
fn delete_resolves_the_column_first() {
    let mut e = editor("abcdef\nab\nxy");
    e.mouse(MouseEvent::Press(MouseButton::Left, 7, 1), 0, 0);
    e.key(Key::Down, 10);
    assert_eq!(at(&e), vec![(1, 6)]);
    assert!(e.key(Key::Delete, 10));
    assert_eq!(e.contents(), "abcdef\nabxy");
    assert_eq!(at(&e), vec![(1, 2)]);
}

#[test]
fn delete_at_the_end_does_nothing() {
    let mut e = editor("ab");
    e.key(Key::End, 10);
    assert!(!e.delete());
    assert_eq!(e.contents(), "ab");
    assert_eq!(at(&e), vec![(0, 2)]);
}

#[test]
fn insert_then_backspace_restores_document_and_cursor() {
    let mut e = editor("ab\ncd\nef");
    e.mouse(MouseEvent::Press(MouseButton::Left, 2, 2), 0, 0);
    let before = at(&e);
    type_text(&mut e, "x\ny\n\nz");
    assert_eq!(e.contents(), "ab\ncx\ny\n\nzd\nef");
    for _ in 0..6 {
        assert!(e.key(Key::Backspace, 10));
    }
    assert_eq!(e.contents(), "ab\ncd\nef");
    assert_eq!(at(&e), before);
}

#[test]
fn insert_then_backspace_at_a_desired_column_on_the_last_line() {
    let mut e = editor("abcdef\nab");
    e.key(Key::Ctrl('e'), 10);
    e.key(Key::Down, 10);
    assert_eq!(at(&e), vec![(1, 6)]);
    type_text(&mut e, "xy");
    assert_eq!(e.contents(), "abcdef\nabxy");
    assert_eq!(at(&e), vec![(1, 4)]);
    e.backspace();
    e.backspace();
    assert_eq!(e.contents(), "abcdef\nab");
    assert_eq!(at(&e), vec![(1, 2)]);
}

#[test]
fn a_line_feed_typed_at_a_desired_column_is_taken_back() {
    let mut e = editor("abcdef\nab\ncd");
    e.key(Key::Ctrl('e'), 10);
    e.key(Key::Down, 10);
    assert_eq!(at(&e), vec![(1, 6)]);
    type_text(&mut e, "\nx");
    assert_eq!(e.contents(), "abcdef\nab\nx\ncd");
    assert_eq!(at(&e), vec![(2, 1)]);
    e.backspace();
    e.backspace();
    assert_eq!(e.contents(), "abcdef\nab\ncd");
    assert_eq!(at(&e), vec![(1, 2)]);
}

#[test]
fn typing_at_a_desired_column_past_a_line_end_stays_on_the_line() {
    let mut e = editor("abcdef\nab\ncd");
    e.key(Key::Ctrl('e'), 10);
    e.key(Key::Down, 10);
    assert_eq!(at(&e), vec![(1, 6)]);
    assert!(e.insert_char('x'));
    assert_eq!(e.contents(), "abcdef\nabx\ncd");
    assert_eq!(at(&e), vec![(1, 3)]);
    assert!(e.backspace());
    assert_eq!(e.contents(), "abcdef\nab\ncd");
    assert_eq!(at(&e), vec![(1, 2)]);
}

#[test]
fn an_edit_that_changes_nothing_leaves_the_desired_column() {
    let mut e = editor("\nabc");
    e.key(Key::End, 10);
    e.key(Key::Up, 10);
    assert_eq!(at(&e), vec![(0, 3)]);
    assert!(!e.backspace());
    assert_eq!(e.contents(), "\nabc");
    assert_eq!(at(&e), vec![(0, 3)]);
    let mut e = editor("abc\n");
    e.key(Key::Ctrl('e'), 10);
    e.key(Key::Down, 10);
    assert_eq!(at(&e), vec![(1, 3)]);
    assert!(!e.delete());
    assert_eq!(at(&e), vec![(1, 3)]);
}

#[test]
fn cursors_on_one_line_keep_their_places_while_typing() {
    let mut e = editor("abcd\nefgh");
    e.add_below();
    e.mouse(MouseEvent::Press(MouseButton::Left, 4, 2), 0, 0);
    assert_eq!(at(&e), vec![(1, 3), (1, 0)]);
    assert!(e.insert_char('x'));
    assert_eq!(e.contents(), "abcd\nxefgxh");
    assert_eq!(at(&e), vec![(1, 5), (1, 1)]);
    assert!(e.insert_char('\n'));
    assert_eq!(e.contents(), "abcd\nx\nefgx\nh");
    assert_eq!(at(&e), vec![(3, 0), (2, 0)]);
    assert!(e.backspace());
    assert!(e.backspace());
    assert_eq!(e.contents(), "abcd\nefgh");
    assert_eq!(at(&e), vec![(1, 3), (1, 0)]);
}

#[test]
fn cursors_on_one_line_keep_their_places_while_deleting() {
    let mut e = editor("ab\nabcdef");
    e.add_below();
    e.key(Key::Right, 10);
    e.mouse(MouseEvent::Press(MouseButton::Left, 5, 2), 0, 0);
    assert_eq!(at(&e), vec![(1, 4), (1, 1)]);
    assert!(e.delete());
    assert_eq!(e.contents(), "ab\nacdf");
    assert_eq!(at(&e), vec![(1, 3), (1, 1)]);
    assert!(e.backspace());
    assert_eq!(e.contents(), "ab\ncf");
    assert_eq!(at(&e), vec![(1, 1), (1, 0)]);
}

#[test]
fn cursors_on_one_line_insert_in_turn() {
    let mut e = editor("ab\ncd");
    e.add_below();
    e.key(Key::Up, 10);
    assert_eq!(at(&e), vec![(0, 0), (0, 0)]);
    assert!(e.insert_char('x'));
    assert_eq!(e.contents(), "xxab\ncd");
    assert_eq!(at(&e), vec![(0, 2), (0, 2)]);
}

#[test]
fn add_below_and_collapse() {
    let mut e = editor("ab\ncd");
    e.key(Key::End, 10);
    e.key(Key::Up, 10);
    assert_eq!(at(&e), vec![(0, 2)]);
    assert!(!e.add_below());
    assert_eq!(at(&e), vec![(0, 2), (1, 2)]);
    assert!(!e.add_below());
    assert_eq!(at(&e), vec![(0, 2), (1, 2)]);
    assert!(!e.collapse_to_primary());
    assert_eq!(at(&e), vec![(0, 2)]);
}

#[test]
fn add_below_keeps_the_desired_column_on_a_short_line() {
    let mut e = editor("abcd\nx");
    e.key(Key::Ctrl('e'), 10);
    assert_eq!(at(&e), vec![(0, 4)]);
    e.key(Key::Alt('k'), 10);
    assert_eq!(at(&e), vec![(0, 4), (1, 4)]);
    assert_eq!(e.cursors()[1].col(e.rope()), 1);
}

#[test]
fn add_above_puts_the_new_cursor_first() {
    let mut e = editor("ab\ncd\nef");
    e.gotoline(2);
    assert!(!e.add_above());
    assert_eq!(at(&e), vec![(1, 0), (2, 0)]);
    e.add_above();
    assert_eq!(at(&e), vec![(0, 0), (1, 0), (2, 0)]);
    e.add_above();
    assert_eq!(at(&e), vec![(0, 0), (1, 0), (2, 0)]);
    assert_eq!(e.line(), 0);
}

#[test]
fn every_cursor_inserts() {
    let mut e = editor("ab\ncd\nef");
    e.add_below();
    e.add_below();
    assert!(e.insert_char('x'));
    assert_eq!(e.contents(), "xab\nxcd\nxef");
    assert_eq!(at(&e), vec![(0, 1), (1, 1), (2, 1)]);
}

#[test]
fn every_cursor_inserts_a_line_feed_in_turn() {
    let mut e = editor("ab\ncd");
    e.add_below();
    e.insert_char('\n');
    assert_eq!(e.contents(), "\nab\n\ncd");
    assert_eq!(at(&e), vec![(1, 0), (3, 0)]);
}

#[test]
fn every_cursor_deletes_and_backspaces() {
    let mut e = editor("ab\ncd\nef");
    e.add_below();
    e.add_below();
    assert!(e.delete());
    assert_eq!(e.contents(), "b\nd\nf");
    e.key(Key::Right, 10);
    assert_eq!(at(&e), vec![(0, 1), (1, 1), (2, 1)]);
    assert!(e.backspace());
    assert_eq!(e.contents(), "\n\n");
    assert_eq!(at(&e), vec![(0, 0), (1, 0), (2, 0)]);
}

#[test]
fn cursors_stay_on_lines_when_lines_are_joined() {
    let mut e = editor("a\nb\nc");
    e.gotoline(2);
    e.add_above();
    assert_eq!(at(&e), vec![(1, 0), (2, 0)]);
    assert!(e.backspace());
    assert_eq!(e.contents(), "abc");
    assert_eq!(e.rope().len_lines(), 1);
    for cursor in e.cursors() {
        assert!(cursor.line < e.rope().len_lines());
    }
    assert_eq!(at(&e), vec![(0, 1), (0, 2)]);
    assert!(!e.key(Key::Left, 10));
    assert_eq!(at(&e), vec![(0, 0), (0, 1)]);
}

#[test]
fn movement_keys_move_every_cursor_and_report_no_change() {
    let mut e = editor("abc\ndef\nghi");
    e.add_below();
    assert!(!e.key(Key::Right, 10));
    assert_eq!(at(&e), vec![(0, 1), (1, 1)]);
    assert!(!e.key(Key::Down, 10));
    assert_eq!(at(&e), vec![(1, 1), (2, 1)]);
    assert!(!e.key(Key::Left, 10));
    assert_eq!(at(&e), vec![(1, 0), (2, 0)]);
    assert!(!e.key(Key::Up, 10));
    assert_eq!(at(&e), vec![(0, 0), (1, 0)]);
    assert!(!e.key(Key::Ctrl('e'), 10));
    assert_eq!(at(&e), vec![(0, 3), (1, 3)]);
    assert!(!e.key(Key::Ctrl('a'), 10));
    assert_eq!(at(&e), vec![(0, 0), (1, 0)]);
    assert!(!e.key(Key::End, 10));
    assert_eq!(at(&e), vec![(2, 3), (2, 3)]);
    assert!(!e.key(Key::Home, 10));
    assert_eq!(at(&e), vec![(0, 0), (0, 0)]);
    assert_eq!(e.contents(), "abc\ndef\nghi");
}

#[test]
fn page_keys_move_by_the_height() {
    let mut e = editor("0\n1\n2\n3\n4\n5\n6\n7\n8\n9");
    assert!(!e.key(Key::PageDown, 4));
    assert_eq!(at(&e), vec![(4, 0)]);
    e.key(Key::PageDown, 4);
    e.key(Key::PageDown, 4);
    assert_eq!(at(&e), vec![(9, 0)]);
    assert!(!e.key(Key::PageUp, 4));
    assert_eq!(at(&e), vec![(5, 0)]);
    e.key(Key::PageUp, 7);
    assert_eq!(at(&e), vec![(0, 0)]);
}

#[test]
fn cursor_keys_report_no_change_of_the_document() {
    let mut e = editor("ab\ncd");
    assert!(!e.key(Key::Alt('k'), 10));
    assert_eq!(at(&e), vec![(0, 0), (1, 0)]);
    assert!(!e.key(Key::Alt('j'), 10));
    assert_eq!(at(&e), vec![(0, 0), (1, 0)]);
    e.key(Key::Down, 10);
    assert!(!e.key(Key::Alt('j'), 10));
    assert_eq!(at(&e), vec![(0, 0), (1, 0), (1, 0)]);
    assert!(!e.key(Key::Esc, 10));
    assert_eq!(at(&e), vec![(0, 0)]);
    assert_eq!(e.contents(), "ab\ncd");
}

#[test]
fn key_reports_exactly_whether_the_document_changed() {
    let mut e = editor("ab");
    assert!(!e.key(Key::Backspace, 10));
    assert!(e.key(Key::Delete, 10));
    assert!(e.key(Key::Char('x'), 10));
    assert!(e.key(Key::Backspace, 10));
    assert_eq!(e.contents(), "b");
    e.key(Key::End, 10);
    assert!(!e.key(Key::Delete, 10));
    assert_eq!(e.contents(), "b");
}

#[test]
fn other_keys_do_nothing() {
    let mut e = editor("ab\ncd");
    e.key(Key::Right, 10);
    for key in [
        Key::Insert,
        Key::BackTab,
        Key::Null,
        Key::F(1),
        Key::Ctrl('x'),
        Key::Alt('x'),
    ] {
        assert!(!e.key(key, 10));
        assert_eq!(e.contents(), "ab\ncd");
        assert_eq!(at(&e), vec![(0, 1)]);
    }
}

#[test]
fn a_left_press_places_the_primary_cursor_only() {
    let mut e = editor("abcdef\nghijkl\nmnopqr");
    e.add_below();
    e.mouse(MouseEvent::Press(MouseButton::Left, 3, 2), 2, 1);
    assert_eq!(at(&e), vec![(2, 4), (1, 0)]);
    e.mouse(MouseEvent::Press(MouseButton::Left, 40, 40), 0, 0);
    assert_eq!(at(&e), vec![(2, 6), (1, 0)]);
    e.mouse(MouseEvent::Press(MouseButton::Left, 1, 1), usize::MAX, usize::MAX);
    assert_eq!(at(&e), vec![(2, 6), (1, 0)]);
}

#[test]
fn other_mouse_events_do_nothing() {
    let mut e = editor("abc\ndef");
    e.mouse(MouseEvent::Press(MouseButton::Right, 2, 2), 0, 0);
    e.mouse(MouseEvent::Press(MouseButton::Middle, 2, 2), 0, 0);
    e.mouse(MouseEvent::Press(MouseButton::WheelUp, 2, 2), 0, 0);
    e.mouse(MouseEvent::Press(MouseButton::WheelDown, 2, 2), 0, 0);
    e.mouse(MouseEvent::Release(2, 2), 0, 0);
    e.mouse(MouseEvent::Hold(2, 2), 0, 0);
    assert_eq!(at(&e), vec![(0, 0)]);
}

#[test]
fn cursors_follow_the_text_when_lines_are_joined() {
    let mut e = editor("a\nb\nc");
    e.gotoline(1);
    e.add_below();
    e.key(Key::Right, 10);
    e.add_above();
    assert_eq!(at(&e), vec![(0, 1), (1, 1), (2, 1)]);
    e.key(Key::Left, 10);
    e.key(Key::Down, 10);
    e.key(Key::Down, 10);
    assert_eq!(at(&e), vec![(2, 0), (2, 0), (2, 0)]);
    e.collapse_to_primary();
    e.add_above();
    e.add_above();
    assert_eq!(at(&e), vec![(0, 0), (1, 0), (2, 0)]);
    e.mouse(MouseEvent::Press(MouseButton::Left, 1, 3), 0, 0);
    assert_eq!(at(&e), vec![(2, 0), (1, 0), (2, 0)]);
    assert!(e.backspace());
    assert_eq!(e.contents(), "ac");
    assert_eq!(at(&e), vec![(0, 1), (0, 1), (0, 1)]);
    assert_eq!(e.line(), 0);
}

#[test]
fn gotoline_moves_the_primary_cursor() {
    let mut e = editor("abc\ndef\nghi");
    e.key(Key::Right, 10);
    e.add_below();
    e.gotoline(2);
    assert_eq!(at(&e), vec![(2, 1), (1, 1)]);
    e.gotoline(99);
    assert_eq!(at(&e), vec![(2, 1), (1, 1)]);
}

#[test]
fn contents_round_trip() {
    let text = "héllo\nwörld\n\nüber\n";
    let e = editor(text);
    let saved = e.contents();
    assert_eq!(saved, text);
    let again = Editor::new(Rope::from_str(&saved));
    assert_eq!(again.contents(), e.contents());
    assert_eq!(again.rope(), e.rope());
}

#[test]
fn cursors_can_be_compared() {
    let e = editor("ab");
    assert_eq!(e.cursors()[0], Cursor::new(0, 0));
}
