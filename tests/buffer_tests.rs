use zelux::buffer::Buffer;

#[test]
fn test_empty_buffer() {
    let buf = Buffer::new();
    assert_eq!(buf.len(), 0);
    assert!(buf.is_empty());
    assert_eq!(buf.line_count(), 1);
    assert!(!buf.is_modified());
    assert_eq!(buf.text(), "");
    assert_eq!(buf.get_line(0), Some(String::new()));
    assert_eq!(buf.get_line(1), None);
}

#[test]
fn test_insert_single_char() {
    let mut buf = Buffer::new();
    buf.insert(0, "a");
    assert_eq!(buf.len(), 1);
    assert_eq!(buf.text(), "a");
    assert!(buf.is_modified());
    assert_eq!(buf.line_count(), 1);
}

#[test]
fn test_insert_multiline() {
    let mut buf = Buffer::new();
    buf.insert(0, "hello\nworld\n");
    assert_eq!(buf.line_count(), 3);
    assert_eq!(buf.get_line(0), Some("hello".into()));
    assert_eq!(buf.get_line(1), Some("world".into()));
    assert_eq!(buf.get_line(2), Some(String::new()));
    assert_eq!(buf.text(), "hello\nworld\n");
}

#[test]
fn test_insert_utf8() {
    let mut buf = Buffer::new();
    buf.insert(0, "café ñ 日本語");
    assert_eq!(buf.text(), "café ñ 日本語");
    assert_eq!(buf.char_at(0), Some('c'));
    assert_eq!(buf.char_at(3), Some('é'));
    assert_eq!(buf.char_at(5), Some(' '));
}

#[test]
fn test_delete_range() {
    let mut buf = Buffer::new();
    buf.insert(0, "hello world");
    let deleted = buf.delete(5, 6);
    assert_eq!(deleted, " world");
    assert_eq!(buf.text(), "hello");
}

#[test]
fn test_delete_empty() {
    let mut buf = Buffer::new();
    buf.insert(0, "abc");
    let deleted = buf.delete(3, 5);
    assert_eq!(deleted, "");
    assert_eq!(buf.text(), "abc");
}

#[test]
fn test_gap_movement() {
    let mut buf = Buffer::new();
    buf.insert(0, "abcdef");
    buf.insert(3, "XY");
    assert_eq!(buf.text(), "abcXYdef");
    buf.insert(0, "Z");
    assert_eq!(buf.text(), "ZabcXYdef");
    let end = buf.len();
    buf.insert(end, "!");
    assert_eq!(buf.text(), "ZabcXYdef!");
}

#[test]
fn test_get_line() {
    let mut buf = Buffer::new();
    buf.insert(0, "first\nsecond\nthird");
    assert_eq!(buf.get_line(0), Some("first".into()));
    assert_eq!(buf.get_line(1), Some("second".into()));
    assert_eq!(buf.get_line(2), Some("third".into()));
    assert_eq!(buf.get_line(3), None);
}

#[test]
fn test_byte_to_line() {
    let mut buf = Buffer::new();
    buf.insert(0, "ab\ncd\nef");
    assert_eq!(buf.byte_to_line(0), 0);
    assert_eq!(buf.byte_to_line(1), 0);
    assert_eq!(buf.byte_to_line(2), 0);
    assert_eq!(buf.byte_to_line(3), 1);
    assert_eq!(buf.byte_to_line(5), 1);
    assert_eq!(buf.byte_to_line(6), 2);
}

#[test]
fn test_line_start_end() {
    let mut buf = Buffer::new();
    buf.insert(0, "ab\ncd\nef");
    assert_eq!(buf.line_start(0), Some(0));
    assert_eq!(buf.line_end(0), Some(2));
    assert_eq!(buf.line_start(1), Some(3));
    assert_eq!(buf.line_end(1), Some(5));
    assert_eq!(buf.line_start(2), Some(6));
    assert_eq!(buf.line_end(2), Some(8));
}

#[test]
fn test_modified_flag() {
    let mut buf = Buffer::new();
    assert!(!buf.is_modified());
    buf.insert(0, "x");
    assert!(buf.is_modified());
    buf.mark_saved();
    assert!(!buf.is_modified());
    buf.delete(0, 1);
    assert!(buf.is_modified());
}

#[test]
fn test_large_insert() {
    let mut buf = Buffer::new();
    let large = "x".repeat(10240);
    buf.insert(0, &large);
    assert_eq!(buf.len(), 10240);
    assert_eq!(buf.text(), large);
    buf.insert(5000, "MIDDLE");
    assert_eq!(buf.len(), 10246);
    assert_eq!(buf.char_at(5000), Some('M'));
}

#[test]
fn test_sequential_inserts() {
    let mut buf = Buffer::new();
    for c in "hello".chars() {
        let pos = buf.len();
        buf.insert(pos, &c.to_string());
    }
    assert_eq!(buf.text(), "hello");
}

// ---------------------------------------------------------------------------

#[test]
fn length_tracks_inserted_minus_removed() {
    let mut buf = Buffer::new();
    buf.insert(0, "hello world");
    buf.insert(100, "!!");
    let removed = buf.delete(3, 4);
    assert_eq!(removed, "lo w");
    let removed_past_end = buf.delete(6, 50);
    assert_eq!(removed_past_end, "d!!");
    buf.insert(2, "é");
    assert_eq!(buf.len(), 11 + 2 - 4 - 3 + 2);
    assert_eq!(buf.text(), "heélorl");
}

#[test]
fn insert_past_end_appends() {
    let mut buf = Buffer::new();
    buf.insert(0, "abc");
    buf.insert(99, "d");
    assert_eq!(buf.text(), "abcd");
}

#[test]
fn delete_zero_length_changes_nothing() {
    let mut buf = Buffer::new();
    buf.insert(0, "abc");
    buf.mark_saved();
    assert_eq!(buf.delete(1, 0), "");
    assert_eq!(buf.text(), "abc");
    assert!(!buf.is_modified());
}

#[test]
fn load_builds_line_index() {
    let buf = Buffer::load(b"one\ntwo\n", Some("f.txt".to_string()));
    assert_eq!(buf.line_count(), 3);
    assert_eq!(buf.get_line(1), Some("two".to_string()));
    assert!(!buf.is_modified());
    assert_eq!(buf.file_path(), Some(&"f.txt".to_string()));
    assert_eq!(buf.text_bytes(), b"one\ntwo\n".to_vec());
}

#[test]
fn saved_as_sets_path_and_clears_flag() {
    let mut buf = Buffer::new();
    buf.insert(0, "x");
    buf.saved_as("out.txt".to_string());
    assert!(!buf.is_modified());
    assert_eq!(buf.file_path(), Some(&"out.txt".to_string()));
}

#[test]
fn invalid_utf8_reads_as_replacement() {
    let buf = Buffer::load(&[b'a', 0xff, b'b'], None);
    assert_eq!(buf.text(), "a\u{FFFD}b");
    assert_eq!(buf.char_at(1), None);
    assert_eq!(buf.char_at(2), Some('b'));
    assert_eq!(buf.slice(0, 1), "a");
}

#[test]
fn char_at_truncated_sequence_is_none() {
    let buf = Buffer::load("é".as_bytes().split_at(1).0, None);
    assert_eq!(buf.char_at(0), None);
    assert_eq!(buf.char_at(5), None);
}

#[test]
fn slice_clamps_to_content() {
    let mut buf = Buffer::new();
    buf.insert(0, "hello");
    assert_eq!(buf.slice(3, 100), "lo");
    assert_eq!(buf.slice(4, 2), "");
    assert_eq!(buf.slice_bytes(10, 20), Vec::<u8>::new());
}

#[test]
fn byte_to_line_past_end_is_last_line() {
    let mut buf = Buffer::new();
    buf.insert(0, "a\nb");
    assert_eq!(buf.byte_to_line(100), 1);
    assert_eq!(buf.line_end(5), None);
    assert_eq!(buf.line_start(2), None);
}

#[test]
fn utf8_char_len_from_lead_byte() {
    assert_eq!(zelux::buffer::utf8_char_len(b'a'), 1);
    assert_eq!(zelux::buffer::utf8_char_len(0xC3), 2);
    assert_eq!(zelux::buffer::utf8_char_len(0xE6), 3);
    assert_eq!(zelux::buffer::utf8_char_len(0xF0), 4);
}
