use rhotic::stage::{CursorLook, TextStage as TextStagePort};
use rhotic::text_buffer::Page;
use rhotic::text_stage::{Buffer, Mode, TextEdit, TextStage};

fn insert_buffer(text: &str) -> Buffer {
    Buffer { page: Page::from(text), line: 0, cindex: 0, mode: Mode::Insert }
}

#[test]
fn end_to_end_editing_scenario() {
    let mut b = Buffer { page: Page::new(), line: 0, cindex: 0, mode: Mode::Insert };

    b.text_in("Hi");
    assert_eq!(b.page.as_string(), "Hi");
    assert_eq!((b.line, b.cindex), (0, 2));

    b.text_in("\n");
    assert_eq!(b.page.as_string(), "Hi\n");
    assert_eq!(b.page.len(), 2);
    assert_eq!((b.line, b.cindex), (1, 0));

    b.text_in("!");
    assert_eq!(b.page.as_string(), "Hi\n!");
    assert_eq!((b.line, b.cindex), (1, 1));

    b.text_in("\u{8}");
    assert_eq!(b.page.as_string(), "Hi\n");
    assert_eq!((b.line, b.cindex), (1, 0));

    b.text_in("\u{8}");
    assert_eq!(b.page.as_string(), "Hi");
    assert_eq!(b.page.len(), 1);
    assert_eq!((b.line, b.cindex), (0, 2));
}

#[test]
fn escape_stops_the_rest_of_the_batch() {
    let mut b = insert_buffer("");
    b.text_in("ab\u{1b}cd");
    assert_eq!(b.page.as_string(), "ab");
    assert_eq!(b.mode, Mode::Command);
    assert_eq!((b.line, b.cindex), (0, 2));

    // command mode inserts nothing at all
    b.text_in("xyz");
    assert_eq!(b.page.as_string(), "ab");
}

#[test]
fn cursor_clamps_to_shorter_line() {
    // lines of length 10, 3 and 7
    let mut b = insert_buffer("abcdefghij\nabc\nabcdefg");
    b.line = 1;
    b.cindex = 8;
    b.validate_cursor();
    assert_eq!((b.line, b.cindex), (1, 3));
}

#[test]
fn cursor_clamps_line_then_column() {
    let mut b = insert_buffer("abc\nx");
    b.line = 9;
    b.cindex = 4;
    b.validate_cursor();
    assert_eq!((b.line, b.cindex), (1, 1));
}

#[test]
fn moving_between_lines_keeps_the_column() {
    let mut b = insert_buffer("abcdefghij\nabc\nabcdefg");
    b.cindex = 8;
    assert!(b.move_cursor_down());
    // the column survives the move to the shorter line
    assert_eq!((b.line, b.cindex), (1, 8));
    assert!(b.move_cursor_down());
    assert_eq!((b.line, b.cindex), (2, 8));
    assert!(!b.move_cursor_down());
    assert!(b.move_cursor_up());
    assert_eq!((b.line, b.cindex), (1, 8));
    // the next text operation clamps it
    b.text_in("X");
    assert_eq!(b.page.get_line(1), Some("abcX"));
    assert_eq!((b.line, b.cindex), (1, 4));
}

#[test]
fn horizontal_moves_clamp_at_the_edges() {
    let mut b = insert_buffer("ab");
    assert!(!b.move_cursor_left());
    assert!(b.move_cursor_right());
    assert!(b.move_cursor_right());
    assert!(!b.move_cursor_right());
    assert_eq!(b.cindex, 2);
    assert!(b.move_cursor_left());
    assert_eq!(b.cindex, 1);
    assert!(!b.move_cursor_up());
}

#[test]
fn real_cursor_is_clamped_for_display() {
    let mut b = insert_buffer("abc");
    b.cindex = 9;
    assert_eq!(b.get_real_cursor(), (3, 0));
    b.cindex = 2;
    assert_eq!(b.get_real_cursor(), (2, 0));
}

#[test]
fn default_buffer_starts_in_command_mode() {
    let b = Buffer::default();
    assert_eq!(b.mode, Mode::Command);
    assert_eq!(b.page.len(), 1);
    assert_eq!((b.line, b.cindex), (0, 0));
}

#[test]
fn text_stage_wraps_the_controller() {
    let mut s = TextStage::new();
    s.input_text("one\ntwo");
    s.validate_cursor();
    s.input_text("\u{8}\u{8}\u{8}\u{8}");
}

#[test]
fn text_edit_input_ignores_control_characters() {
    let mut e = TextEdit::new();
    e.input_text("ab\u{8}\u{1b}cd");
    // erase and escape pass through without effect
    assert_eq!(e.page.as_string(), "abcd");
    assert_eq!(e.mode, Mode::Insert);
    assert_eq!((e.cursor_y, e.cursor_x), (0, 4));
}

#[test]
fn text_edit_backspace_erases_and_joins() {
    let mut e = TextEdit::new();
    e.input_text("Hi\n!");
    assert!(e.backspace());
    assert_eq!(e.page.as_string(), "Hi\n");
    assert!(e.backspace());
    assert_eq!(e.page.as_string(), "Hi");
    assert_eq!((e.cursor_y, e.cursor_x), (0, 2));
    // at the origin backspace does nothing
    e.cursor_x = 0;
    assert!(e.backspace());
    assert_eq!(e.page.as_string(), "Hi");
}

#[test]
fn text_edit_backspace_in_command_mode_moves_left() {
    let mut e = TextEdit::new();
    e.input_text("abc");
    e.command_mode();
    assert!(e.backspace());
    assert_eq!(e.page.as_string(), "abc");
    assert_eq!(e.cursor_x, 2);
}

#[test]
fn text_edit_mode_switches() {
    let mut e = TextEdit::new();
    assert_eq!(e.mode, Mode::Insert);
    assert!(e.command_mode());
    assert_eq!(e.mode, Mode::Command);
    assert!(e.insert_mode());
    assert_eq!(e.mode, Mode::Insert);
    assert!(e.insert_mode());
    assert_eq!(e.mode, Mode::Insert);
}

#[test]
fn text_edit_presents_text_and_cursor() {
    let mut e = TextEdit::new();
    e.input_text("hey\nyou");
    assert_eq!(e.get_display_text(), "hey\nyou");
    let (x, y, look) = e.get_cursor();
    assert_eq!((x, y), (3, 1));
    assert_eq!(look, CursorLook::VerticalBar);
    e.command_mode();
    let (_, _, look) = e.get_cursor();
    assert_eq!(look, CursorLook::Block);
    // a column beyond the line is clamped for display only
    e.insert_mode();
    e.cursor_x = 9;
    let (x, _, _) = e.get_cursor();
    assert_eq!(x, 3);
    assert_eq!(e.cursor_x, 9);
}

#[test]
fn text_edit_move_cursor_left_clamps_first() {
    let mut e = TextEdit::new();
    e.input_text("ab");
    e.cursor_x = 9;
    assert!(e.move_cursor_left());
    assert_eq!(e.cursor_x, 1);
    assert!(e.move_cursor_left());
    assert!(!e.move_cursor_left());
}

#[test]
fn newline_then_erase_echoes_back() {
    let mut b = insert_buffer("abcdef");
    b.cindex = 3;
    b.text_in("\n\u{8}");
    assert_eq!(b.page.as_string(), "abcdef");
    assert_eq!((b.line, b.cindex), (0, 3));
    assert_eq!(b.mode, Mode::Insert);
}
