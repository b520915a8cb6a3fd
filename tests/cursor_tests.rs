use zelux::buffer::Buffer;
use zelux::cursor::Cursor;

fn buf_with(text: &str) -> Buffer {
    let mut buf = Buffer::new();
    buf.insert(0, text);
    buf
}

#[test]
fn test_new_cursor() {
    let c = Cursor::new();
    assert_eq!(c.line, 0);
    assert_eq!(c.col, 0);
    assert_eq!(c.desired_col, 0);
}

#[test]
fn test_move_right_single_line() {
    let buf = buf_with("abc");
    let mut c = Cursor::new();
    c.move_right(&buf);
    assert_eq!(c.col, 1);
    c.move_right(&buf);
    assert_eq!(c.col, 2);
    c.move_right(&buf);
    assert_eq!(c.col, 3);
    c.move_right(&buf);
    assert_eq!(c.col, 3);
    assert_eq!(c.line, 0);
}

#[test]
fn test_move_right_wraps() {
    let buf = buf_with("ab\ncd");
    let mut c = Cursor::new();
    c.move_right(&buf);
    c.move_right(&buf);
    c.move_right(&buf);
    assert_eq!(c.line, 1);
    assert_eq!(c.col, 0);
}

#[test]
fn test_move_left_wraps() {
    let buf = buf_with("ab\ncd");
    let mut c = Cursor::new();
    c.line = 1;
    c.col = 0;
    c.move_left(&buf);
    assert_eq!(c.line, 0);
    assert_eq!(c.col, 2);
}

#[test]
fn test_move_left_at_start() {
    let buf = buf_with("abc");
    let mut c = Cursor::new();
    c.move_left(&buf);
    assert_eq!(c.line, 0);
    assert_eq!(c.col, 0);
}

#[test]
fn test_move_up_down_desired_col() {
    let buf = buf_with("long line here\nshort\nanother long line");
    let mut c = Cursor::new();
    c.set_position(0, 10, &buf);
    assert_eq!(c.desired_col, 10);
    c.move_down(&buf);
    assert_eq!(c.line, 1);
    assert_eq!(c.col, 5);
    assert_eq!(c.desired_col, 10);
    c.move_down(&buf);
    assert_eq!(c.line, 2);
    assert_eq!(c.col, 10);
}

#[test]
fn test_move_up_at_top() {
    let buf = buf_with("abc\ndef");
    let mut c = Cursor::new();
    c.move_up(&buf);
    assert_eq!(c.line, 0);
    assert_eq!(c.col, 0);
}

#[test]
fn test_move_down_at_bottom() {
    let buf = buf_with("abc\ndef");
    let mut c = Cursor::new();
    c.line = 1;
    c.col = 2;
    c.desired_col = 2;
    c.move_down(&buf);
    assert_eq!(c.line, 1);
    assert_eq!(c.col, 2);
}

#[test]
fn test_move_word_left() {
    let buf = buf_with("hello world foo");
    let mut c = Cursor::new();
    c.col = 15;
    c.desired_col = 15;
    c.move_word_left(&buf);
    assert_eq!(c.col, 12);
    c.move_word_left(&buf);
    assert_eq!(c.col, 6);
    c.move_word_left(&buf);
    assert_eq!(c.col, 0);
    c.move_word_left(&buf);
    assert_eq!(c.col, 0);
}

#[test]
fn test_move_word_right() {
    let buf = buf_with("hello world foo");
    let mut c = Cursor::new();
    c.move_word_right(&buf);
    assert_eq!(c.col, 6);
    c.move_word_right(&buf);
    assert_eq!(c.col, 12);
    c.move_word_right(&buf);
    assert_eq!(c.col, 15);
}

#[test]
fn test_smart_home() {
    let buf = buf_with("    indented");
    let mut c = Cursor::new();
    c.col = 10;
    c.desired_col = 10;
    c.move_home(&buf);
    assert_eq!(c.col, 4);
    c.move_home(&buf);
    assert_eq!(c.col, 0);
    c.move_home(&buf);
    assert_eq!(c.col, 4);
}

#[test]
fn test_move_end() {
    let buf = buf_with("hello\nworld");
    let mut c = Cursor::new();
    c.move_end(&buf);
    assert_eq!(c.col, 5);
}

#[test]
fn test_page_up_down() {
    let buf = buf_with("a\nb\nc\nd\ne\nf\ng\nh\ni\nj");
    let mut c = Cursor::new();
    c.set_position(5, 0, &buf);
    c.move_page_up(&buf, 3);
    assert_eq!(c.line, 2);
    c.move_page_down(&buf, 3);
    assert_eq!(c.line, 5);
    c.move_page_down(&buf, 100);
    assert_eq!(c.line, 9);
    c.move_page_up(&buf, 100);
    assert_eq!(c.line, 0);
}

#[test]
fn test_move_to_start_end() {
    let buf = buf_with("hello\nworld\nfoo");
    let mut c = Cursor::new();
    c.set_position(1, 3, &buf);
    c.move_to_end(&buf);
    assert_eq!(c.line, 2);
    assert_eq!(c.col, 3);
    c.move_to_start();
    assert_eq!(c.line, 0);
    assert_eq!(c.col, 0);
}

#[test]
fn test_utf8_movement() {
    let buf = buf_with("café");
    let mut c = Cursor::new();
    c.move_right(&buf);
    assert_eq!(c.col, 1);
    c.move_right(&buf);
    assert_eq!(c.col, 2);
    c.move_right(&buf);
    assert_eq!(c.col, 3);
    c.move_right(&buf);
    assert_eq!(c.col, 5);
    c.move_left(&buf);
    assert_eq!(c.col, 3);
    c.move_left(&buf);
    assert_eq!(c.col, 2);
}

#[test]
fn test_byte_offset() {
    let buf = buf_with("ab\ncd\nef");
    let mut c = Cursor::new();
    assert_eq!(c.byte_offset(&buf), 0);
    c.set_position(1, 1, &buf);
    assert_eq!(c.byte_offset(&buf), 4);
    c.set_position(2, 2, &buf);
    assert_eq!(c.byte_offset(&buf), 8);
}

#[test]
fn test_clamp_after_shrink() {
    let mut buf = Buffer::new();
    buf.insert(0, "hello\nworld\nfoo");
    let mut c = Cursor::new();
    c.line = 2;
    c.col = 3;
    c.desired_col = 3;
    buf.delete(5, 10);
    c.clamp(&buf);
    assert_eq!(c.line, 0);
    assert_eq!(c.col, 3);
}

#[test]
fn test_set_position_clamps() {
    let buf = buf_with("short");
    let mut c = Cursor::new();
    c.set_position(100, 100, &buf);
    assert_eq!(c.line, 0);
    assert_eq!(c.col, 5);
}

#[test]
fn test_move_word_left_wraps_line() {
    let buf = buf_with("hello\nworld");
    let mut c = Cursor::new();
    c.line = 1;
    c.col = 0;
    c.desired_col = 0;
    c.move_word_left(&buf);
    assert_eq!(c.line, 0);
    assert_eq!(c.col, 5);
}

#[test]
fn test_move_word_right_wraps_line() {
    let buf = buf_with("hello\nworld");
    let mut c = Cursor::new();
    c.col = 5;
    c.desired_col = 5;
    c.move_word_right(&buf);
    assert_eq!(c.line, 1);
    assert_eq!(c.col, 0);
}

// ---------------------------------------------------------------------------

#[test]
fn clamp_keeps_valid_cursor() {
    let buf = buf_with("hello\nworld");
    let mut c = Cursor::new();
    c.line = 1;
    c.col = 2;
    c.desired_col = 7;
    c.clamp(&buf);
    assert_eq!((c.line, c.col, c.desired_col), (1, 2, 7));
    c.clamp(&buf);
    assert_eq!((c.line, c.col, c.desired_col), (1, 2, 7));
}

#[test]
fn smart_home_on_unindented_line_stays_at_zero() {
    let buf = buf_with("abc");
    let mut c = Cursor::new();
    c.col = 2;
    c.move_home(&buf);
    assert_eq!(c.col, 0);
    c.move_home(&buf);
    assert_eq!(c.col, 0);
}

#[test]
fn smart_home_on_blank_line_goes_to_zero() {
    let buf = buf_with("   ");
    let mut c = Cursor::new();
    c.col = 3;
    c.move_home(&buf);
    assert_eq!(c.col, 0);
}

#[test]
fn word_moves_skip_punctuation() {
    let buf = buf_with("foo_bar, baz");
    let mut c = Cursor::new();
    c.move_word_right(&buf);
    assert_eq!(c.col, 9);
    c.move_word_left(&buf);
    assert_eq!(c.col, 0);
}

#[test]
fn vertical_moves_keep_desired_column() {
    let buf = buf_with("abcdef\nab\nabcdef");
    let mut c = Cursor::new();
    c.set_position(2, 6, &buf);
    c.move_up(&buf);
    assert_eq!((c.line, c.col, c.desired_col), (1, 2, 6));
    c.move_up(&buf);
    assert_eq!((c.line, c.col, c.desired_col), (0, 6, 6));
    c.move_page_down(&buf, 1);
    assert_eq!((c.line, c.col), (1, 2));
}
