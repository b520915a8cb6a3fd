use zelux::buffer::Buffer;
use zelux::cursor::Cursor;
use zelux::editor::{
    byte_col_to_display_col, compute_gutter_width, display_col_to_byte_col, shorten_path, Editor,
    EditorAction, Prompt, PromptAction, Selection,
};
use zelux::input::{Event, Key, KeyEvent};
use zelux::search::find_all_matches;
use zelux::terminal::ColorMode;

#[test]
fn test_compute_gutter_width() {
    assert_eq!(compute_gutter_width(1), 4);
    assert_eq!(compute_gutter_width(9), 4);
    assert_eq!(compute_gutter_width(10), 4);
    assert_eq!(compute_gutter_width(99), 4);
    assert_eq!(compute_gutter_width(100), 5);
    assert_eq!(compute_gutter_width(999), 5);
    assert_eq!(compute_gutter_width(1000), 6);
}

#[test]
fn test_byte_col_to_display_col() {
    assert_eq!(byte_col_to_display_col("hello", 0), 0);
    assert_eq!(byte_col_to_display_col("hello", 3), 3);
    assert_eq!(byte_col_to_display_col("hello", 5), 5);
    assert_eq!(byte_col_to_display_col("café", 0), 0);
    assert_eq!(byte_col_to_display_col("café", 3), 3);
    assert_eq!(byte_col_to_display_col("café", 5), 4);
}

#[test]
fn test_display_col_to_byte_col() {
    assert_eq!(display_col_to_byte_col("hello", 0), 0);
    assert_eq!(display_col_to_byte_col("hello", 3), 3);
    assert_eq!(display_col_to_byte_col("hello", 5), 5);
    assert_eq!(display_col_to_byte_col("café", 3), 3);
    assert_eq!(display_col_to_byte_col("café", 4), 5);
}

#[test]
fn test_selection_range_ordering() {
    let sel = Selection { anchor: 5, head: 10 };
    let (start, end) = {
        let s = sel.anchor.min(sel.head);
        let e = sel.anchor.max(sel.head);
        (s, e)
    };
    assert_eq!(start, 5);
    assert_eq!(end, 10);
    assert_eq!(sel.range(), (5, 10));

    let sel2 = Selection { anchor: 10, head: 5 };
    let (start2, end2) = {
        let s = sel2.anchor.min(sel2.head);
        let e = sel2.anchor.max(sel2.head);
        (s, e)
    };
    assert_eq!(start2, 5);
    assert_eq!(end2, 10);
    assert_eq!(sel2.range(), (5, 10));
}

#[test]
fn test_delete_selection_repositions_cursor() {
    let mut buf = Buffer::new();
    buf.insert(0, "hello world");
    let mut cursor = Cursor::new();
    cursor.set_position(0, 5, &buf);
    let sel = Selection { anchor: 5, head: 11 };
    let (start, end) = (sel.anchor.min(sel.head), sel.anchor.max(sel.head));
    let deleted = buf.slice(start, end);
    buf.delete(start, end - start);
    let line = buf.byte_to_line(start);
    let line_start = buf.line_start(line).unwrap_or(0);
    let col = start - line_start;
    cursor.set_position(line, col, &buf);
    assert_eq!(deleted, " world");
    assert_eq!(buf.text(), "hello");
    assert_eq!(cursor.line, 0);
    assert_eq!(cursor.col, 5);
}

#[test]
fn test_prompt_insert_char() {
    let mut prompt = Prompt {
        label: "Open: ".to_string(),
        input: String::new(),
        cursor_pos: 0,
        action: PromptAction::OpenFile,
    };
    prompt.insert_str("a");
    assert_eq!(prompt.input, "a");
    assert_eq!(prompt.cursor_pos, 1);
    prompt.insert_str("b");
    assert_eq!(prompt.input, "ab");
    assert_eq!(prompt.cursor_pos, 2);
    prompt.move_left();
    prompt.insert_str("x");
    assert_eq!(prompt.input, "axb");
    assert_eq!(prompt.cursor_pos, 2);
}

#[test]
fn test_prompt_backspace() {
    let mut prompt = Prompt {
        label: "Open: ".to_string(),
        input: "hello".to_string(),
        cursor_pos: 5,
        action: PromptAction::OpenFile,
    };
    prompt.backspace();
    assert_eq!(prompt.input, "hell");
    assert_eq!(prompt.cursor_pos, 4);
}

#[test]
fn test_prompt_delete() {
    let mut prompt = Prompt {
        label: "Open: ".to_string(),
        input: "hello".to_string(),
        cursor_pos: 0,
        action: PromptAction::OpenFile,
    };
    prompt.delete();
    assert_eq!(prompt.input, "ello");
    assert_eq!(prompt.cursor_pos, 0);
}

#[test]
fn test_prompt_cursor_movement() {
    let mut prompt = Prompt {
        label: "Open: ".to_string(),
        input: "abc".to_string(),
        cursor_pos: 0,
        action: PromptAction::OpenFile,
    };
    prompt.move_right();
    assert_eq!(prompt.cursor_pos, 1);
    prompt.move_end();
    assert_eq!(prompt.cursor_pos, 3);
    prompt.move_home();
    assert_eq!(prompt.cursor_pos, 0);
    prompt.move_left();
    assert_eq!(prompt.cursor_pos, 0);
}

#[test]
fn test_prompt_utf8_navigation() {
    let mut prompt = Prompt {
        label: "Open: ".to_string(),
        input: "café".to_string(),
        cursor_pos: 5,
        action: PromptAction::OpenFile,
    };
    prompt.move_left();
    assert_eq!(prompt.cursor_pos, 3);
    prompt.cursor_pos = 5;
    prompt.backspace();
    assert_eq!(prompt.input, "caf");
    assert_eq!(prompt.cursor_pos, 3);
}

#[test]
fn test_find_all_matches_basic() {
    let matches = find_all_matches("hello hello", "hello");
    assert_eq!(matches, vec![(0, 5), (6, 11)]);
}

#[test]
fn test_find_all_matches_case_insensitive() {
    let matches = find_all_matches("Hello HELLO", "hello");
    assert_eq!(matches, vec![(0, 5), (6, 11)]);
}

#[test]
fn test_find_all_matches_empty_pattern() {
    let matches = find_all_matches("hello", "");
    assert!(matches.is_empty());
}

#[test]
fn test_find_all_matches_no_overlap() {
    let matches = find_all_matches("aaa", "aa");
    assert_eq!(matches, vec![(0, 2)]);
}

#[test]
fn test_find_all_matches_utf8() {
    let matches = find_all_matches("café café", "café");
    assert_eq!(matches.len(), 2);
    assert_eq!(matches[0], (0, 5));
    assert_eq!(matches[1], (6, 11));
}

// ---------------------------------------------------------------------------

fn key(k: Key) -> Event {
    Event::Key(KeyEvent::plain(k))
}

fn shift(k: Key) -> Event {
    Event::Key(KeyEvent { key: k, ctrl: false, alt: false, shift: true })
}

fn ctrl(c: char) -> Event {
    Event::Key(KeyEvent::ctrl(Key::Char(c)))
}

fn editor_with(text: &str) -> Editor {
    Editor::open(text.as_bytes(), "doc.txt".to_string(), "doc.txt".to_string(), 40, 10, ColorMode::TrueColor)
        .unwrap()
}

#[test]
fn inserting_lines_into_empty_buffer() {
    let mut buf = Buffer::new();
    buf.insert(0, "hello\nworld\n");
    assert_eq!(buf.line_count(), 3);
    assert_eq!(buf.get_line(0), Some("hello".to_string()));
    assert_eq!(buf.get_line(1), Some("world".to_string()));
    assert_eq!(buf.get_line(2), Some(String::new()));
}

#[test]
fn deleting_selection_across_lines_moves_cursor_to_start() {
    let mut ed = editor_with("hello\nworld");
    for _ in 0..3 {
        ed.handle_event(key(Key::Right));
    }
    ed.handle_event(shift(Key::Down));
    assert_eq!(ed.selection_range(), Some((3, 9)));
    let deleted = ed.delete_selection();
    assert_eq!(deleted, Some("lo\nwor".to_string()));
    assert_eq!(ed.buffer().text(), "helld");
    assert_eq!((ed.cursor().line, ed.cursor().col), (0, 3));
    assert_eq!(ed.selection(), None);
    assert_eq!(ed.delete_selection(), None);
}

#[test]
fn replace_all_replaces_every_match_and_undoes_each() {
    let mut ed = editor_with("foo foo foo");
    assert_eq!(ed.execute_replace_all("foo", "bar"), 3);
    assert_eq!(ed.buffer().text(), "bar bar bar");
    ed.undo();
    ed.undo();
    assert_eq!(ed.buffer().text(), "foo bar bar");
    ed.undo();
    ed.undo();
    assert_eq!(ed.buffer().text(), "foo foo bar");
    ed.undo();
    ed.undo();
    assert_eq!(ed.buffer().text(), "foo foo foo");
}

#[test]
fn replace_all_without_matches_changes_nothing() {
    let mut ed = editor_with("abc");
    assert_eq!(ed.execute_replace_all("zz", "y"), 0);
    assert_eq!(ed.buffer().text(), "abc");
    assert_eq!(ed.message(), Some(&"No matches to replace".to_string()));
}

#[test]
fn typing_then_undo_removes_the_burst() {
    let mut ed = Editor::new(40, 10, ColorMode::Color16);
    for c in "héllo".chars() {
        ed.handle_event(key(Key::Char(c)));
    }
    assert_eq!(ed.buffer().text(), "héllo");
    assert_eq!(ed.cursor().col, 6);
    ed.handle_event(ctrl('z'));
    assert_eq!(ed.buffer().text(), "");
    ed.handle_event(ctrl('y'));
    assert_eq!(ed.buffer().text(), "héllo");
}

#[test]
fn backspace_and_delete_remove_whole_characters() {
    let mut ed = editor_with("aé");
    ed.handle_event(key(Key::End));
    ed.handle_event(key(Key::Backspace));
    assert_eq!(ed.buffer().text(), "a");
    ed.handle_event(key(Key::Home));
    ed.handle_event(key(Key::Delete));
    assert_eq!(ed.buffer().text(), "");
}

#[test]
fn search_session_cycles_through_matches() {
    let mut ed = editor_with("ab ab ab");
    ed.handle_event(key(Key::Right));
    ed.update_search("AB");
    let (matches, current) = ed.search_matches().unwrap();
    assert_eq!(matches, vec![(0, 2), (3, 5), (6, 8)]);
    assert_eq!(current, Some(1));
    assert_eq!(ed.cursor().col, 3);
    ed.search_next();
    assert_eq!(ed.search_matches().unwrap().1, Some(2));
    assert_eq!(ed.message(), Some(&"Match 3 of 3".to_string()));
    ed.search_next();
    assert_eq!(ed.search_matches().unwrap().1, Some(0));
    assert_eq!(ed.cursor().col, 0);
    ed.search_prev();
    assert_eq!(ed.search_matches().unwrap().1, Some(2));
    ed.update_search("");
    assert!(ed.search_matches().is_none());
}

#[test]
fn search_wraps_to_first_match() {
    let mut ed = editor_with("xy ab");
    ed.handle_event(key(Key::End));
    ed.update_search("xy");
    assert_eq!(ed.search_matches().unwrap().1, Some(0));
    assert_eq!(ed.cursor().col, 0);
}

#[test]
fn search_without_pattern_warns() {
    let mut ed = editor_with("abc");
    ed.search_next();
    assert_eq!(ed.message(), Some(&"No search pattern".to_string()));
}

#[test]
fn cut_and_paste_line() {
    let mut ed = editor_with("one\ntwo\n");
    ed.handle_event(ctrl('x'));
    assert_eq!(ed.buffer().text(), "two\n");
    assert_eq!(ed.clipboard(), &"one\n".to_string());
    ed.handle_event(key(Key::Down));
    ed.handle_event(ctrl('v'));
    assert_eq!(ed.buffer().text(), "two\none\n");
}

#[test]
fn select_all_then_type_replaces_everything() {
    let mut ed = editor_with("old text");
    ed.select_all();
    assert_eq!(ed.selection(), Some(Selection { anchor: 0, head: 8 }));
    ed.handle_event(key(Key::Char('n')));
    assert_eq!(ed.buffer().text(), "n");
}

#[test]
fn save_and_quit_flow() {
    let mut ed = editor_with("abc");
    ed.handle_event(key(Key::Char('x')));
    match ed.handle_event(ctrl('q')) {
        EditorAction::Continue => {}
        _ => panic!("expected a confirmation first"),
    }
    match ed.handle_event(ctrl('s')) {
        EditorAction::Save { path, contents } => {
            assert_eq!(path, "doc.txt");
            assert_eq!(contents, b"xabc".to_vec());
        }
        _ => panic!("expected a save request"),
    }
    ed.save_finished(Ok(()));
    assert!(!ed.buffer().is_modified());
    match ed.handle_event(ctrl('q')) {
        EditorAction::Quit => {}
        _ => panic!("expected to quit"),
    }
    assert!(!ed.is_running());
}

#[test]
fn new_document_has_no_file_to_save() {
    let mut ed = Editor::new(20, 5, ColorMode::Color256);
    match ed.handle_event(ctrl('s')) {
        EditorAction::Continue => {}
        _ => panic!("nothing to save to"),
    }
    assert_eq!(ed.message(), Some(&"No file name".to_string()));
}

#[test]
fn find_prompt_searches_and_reports() {
    let mut ed = editor_with("one two one");
    ed.handle_event(ctrl('f'));
    for c in "one".chars() {
        ed.handle_event(key(Key::Char(c)));
    }
    assert_eq!(ed.prompt().unwrap().input, "one");
    ed.handle_event(key(Key::Enter));
    assert!(ed.prompt().is_none());
    assert_eq!(ed.message(), Some(&"Match 1 of 2".to_string()));
}

#[test]
fn replace_prompts_then_replaces() {
    let mut ed = editor_with("a-a");
    ed.handle_event(ctrl('h'));
    ed.handle_event(key(Key::Char('a')));
    ed.handle_event(key(Key::Enter));
    assert_eq!(ed.prompt().unwrap().label, "Replace with: ");
    ed.handle_event(key(Key::Char('b')));
    ed.handle_event(key(Key::Enter));
    assert_eq!(ed.buffer().text(), "b-b");
    assert_eq!(ed.message(), Some(&"Replaced 2 occurrences".to_string()));
}

#[test]
fn open_prompt_asks_host_and_loads() {
    let mut ed = Editor::new(30, 6, ColorMode::TrueColor);
    ed.handle_event(ctrl('o'));
    for c in "f.txt".chars() {
        ed.handle_event(key(Key::Char(c)));
    }
    let path = match ed.handle_event(key(Key::Enter)) {
        EditorAction::Open(p) => p,
        _ => panic!("expected an open request"),
    };
    assert_eq!(path, "f.txt");
    ed.open_finished(path.clone(), "f.txt".to_string(), Err("missing".to_string()));
    assert!(ed.prompt().is_some());
    assert_eq!(ed.message(), Some(&"Error: missing".to_string()));
    ed.open_finished(path, "f.txt".to_string(), Ok(b"loaded\n".to_vec()));
    assert!(ed.prompt().is_none());
    assert_eq!(ed.buffer().text(), "loaded\n");
}

#[test]
fn editor_open_rejects_nothing_small() {
    assert!(Editor::open(b"x", "p".to_string(), "p".to_string(), 10, 4, ColorMode::Color16).is_ok());
}

#[test]
fn render_draws_text_and_status() {
    let mut ed = editor_with("hi");
    let out = ed.render();
    let text = String::from_utf8_lossy(&out).to_string();
    assert!(text.contains('h'));
    // The status bar sits on row 9 (1-based) of a 10-row terminal.
    assert!(text.contains("\x1b[9;1H"));
    assert!(text.contains("\x1b[9;2Hd"));
    let again = ed.render();
    assert!(!again.is_empty());
}

#[test]
fn mouse_click_places_cursor() {
    let mut ed = editor_with("abcdef\nxyz");
    ed.render();
    ed.handle_event(Event::Mouse(zelux::input::MouseEvent {
        button: zelux::input::MouseButton::Left,
        col: 6,
        row: 1,
        pressed: true,
    }));
    assert_eq!((ed.cursor().line, ed.cursor().col), (1, 2));
}

#[test]
fn paste_event_inserts_as_one_unit() {
    let mut ed = Editor::new(40, 10, ColorMode::TrueColor);
    ed.handle_event(key(Key::Char('a')));
    ed.handle_event(Event::Paste("xyz".to_string()));
    assert_eq!(ed.buffer().text(), "axyz");
    assert_eq!(ed.cursor().col, 4);
    ed.undo();
    assert_eq!(ed.buffer().text(), "a");
}

#[test]
fn test_shorten_path() {
    assert_eq!(shorten_path("/etc/config", Some("/home/me")), "/etc/config");
    assert_eq!(shorten_path("/home/me", Some("/home/me")), "~");
    assert_eq!(shorten_path("/home/me/projects/zelux", Some("/home/me")), "~/projects/zelux");
    assert_eq!(shorten_path("/home/meow", Some("/home/me")), "/home/meow");
    assert_eq!(shorten_path("/home/me/x", None), "/home/me/x");
}

#[test]
fn incremental_search_starts_from_pre_search_offset() {
    let mut ed = editor_with("a xab");
    ed.handle_event(ctrl('f'));
    ed.handle_event(key(Key::Char('a')));
    ed.handle_event(key(Key::Char('b')));
    assert_eq!(ed.search_matches().unwrap().1, Some(0));
    assert_eq!(ed.cursor().col, 3);
    ed.handle_event(key(Key::Backspace));
    // Measured from offset 0, where the search began, not from column 3.
    assert_eq!(ed.search_matches().unwrap().1, Some(0));
    assert_eq!(ed.search_matches().unwrap().0, vec![(0, 1), (3, 4)]);
    assert_eq!(ed.cursor().col, 0);
}

#[test]
fn paste_replaces_selection() {
    let mut ed = editor_with("hello world");
    ed.handle_event(shift(Key::End));
    ed.handle_paste("bye");
    assert_eq!(ed.buffer().text(), "bye");
    assert_eq!(ed.selection(), None);
}

#[test]
fn backspace_joins_lines_and_undoes() {
    let mut ed = editor_with("ab\ncd");
    ed.handle_event(key(Key::Down));
    ed.handle_event(key(Key::Backspace));
    assert_eq!(ed.buffer().text(), "abcd");
    assert_eq!((ed.cursor().line, ed.cursor().col, ed.cursor().desired_col), (0, 2, 2));
    ed.undo();
    assert_eq!(ed.buffer().text(), "ab\ncd");
    assert_eq!((ed.cursor().line, ed.cursor().col), (1, 0));
}

#[test]
fn search_prev_reports_position() {
    let mut ed = editor_with("x x x");
    ed.update_search("x");
    ed.search_prev();
    assert_eq!(ed.message(), Some(&"Match 3 of 3".to_string()));
    assert_eq!(ed.cursor().col, 4);
}

#[test]
fn open_failure_keeps_document() {
    let mut ed = editor_with("keep");
    ed.open_finished("other".to_string(), "other".to_string(), Err("no such file".to_string()));
    assert_eq!(ed.buffer().text(), "keep");
    assert_eq!(ed.message(), Some(&"Error: no such file".to_string()));
}

#[test]
fn search_matches_follow_edits() {
    let mut ed = editor_with("ab ab");
    ed.update_search("ab");
    assert_eq!(ed.search_matches().unwrap().0, vec![(0, 2), (3, 5)]);
    ed.handle_event(key(Key::Home));
    ed.handle_event(key(Key::Char('x')));
    assert_eq!(ed.buffer().text(), "xab ab");
    assert_eq!(ed.search_matches().unwrap().0, vec![(1, 3), (4, 6)]);
    ed.undo();
    assert_eq!(ed.search_matches().unwrap().0, vec![(0, 2), (3, 5)]);
}

#[test]
fn undo_moves_cursor_back() {
    let mut ed = editor_with("abc");
    ed.handle_event(key(Key::End));
    ed.handle_event(Event::Paste("XY".to_string()));
    assert_eq!(ed.cursor().col, 5);
    ed.undo();
    assert_eq!(ed.buffer().text(), "abc");
    assert_eq!(ed.cursor().col, 3);
    ed.redo();
    assert_eq!(ed.buffer().text(), "abcXY");
    assert_eq!(ed.cursor().col, 5);
}
