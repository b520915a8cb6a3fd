use zelux::buffer::Buffer;
use zelux::undo::{CursorState, GroupContext, Operation, UndoStack};

fn cursor(line: usize, col: usize) -> CursorState {
    CursorState { line, col, desired_col: col }
}

#[test]
fn test_undo_single_insert() {
    let mut buf = Buffer::new();
    let mut stack = UndoStack::new();
    let before = cursor(0, 0);
    buf.insert(0, "hello");
    stack.record(Operation::Insert { pos: 0, text: "hello".to_string() }, before, GroupContext::Paste);
    let after = cursor(0, 5);
    let restored = stack.undo(&mut buf, after);
    assert!(restored.is_some());
    assert_eq!(buf.text(), "");
}

#[test]
fn test_undo_single_delete() {
    let mut buf = Buffer::new();
    buf.insert(0, "hello");
    let mut stack = UndoStack::new();
    let before = cursor(0, 5);
    buf.delete(0, 5);
    stack.record(Operation::Delete { pos: 0, text: "hello".to_string() }, before, GroupContext::Other);
    let after = cursor(0, 0);
    let restored = stack.undo(&mut buf, after);
    assert!(restored.is_some());
    assert_eq!(buf.text(), "hello");
}

#[test]
fn test_redo() {
    let mut buf = Buffer::new();
    let mut stack = UndoStack::new();
    let before = cursor(0, 0);
    buf.insert(0, "hello");
    stack.record(Operation::Insert { pos: 0, text: "hello".to_string() }, before, GroupContext::Paste);
    let after = cursor(0, 5);
    stack.undo(&mut buf, after);
    assert_eq!(buf.text(), "");
    let restored = stack.redo(&mut buf);
    assert!(restored.is_some());
    assert_eq!(buf.text(), "hello");
    assert_eq!(restored.unwrap().col, 5);
}

#[test]
fn test_redo_cleared_on_edit() {
    let mut buf = Buffer::new();
    let mut stack = UndoStack::new();
    let before = cursor(0, 0);
    buf.insert(0, "hello");
    stack.record(Operation::Insert { pos: 0, text: "hello".to_string() }, before, GroupContext::Paste);
    let after = cursor(0, 5);
    stack.undo(&mut buf, after);
    assert_eq!(buf.text(), "");
    buf.insert(0, "world");
    stack.record(Operation::Insert { pos: 0, text: "world".to_string() }, cursor(0, 0), GroupContext::Paste);
    let result = stack.redo(&mut buf);
    assert!(result.is_none());
}

#[test]
fn test_grouping_same_context() {
    let mut buf = Buffer::new();
    let mut stack = UndoStack::new();
    for (i, ch) in "hello".chars().enumerate() {
        let before = cursor(0, i);
        buf.insert(i, &ch.to_string());
        stack.record(Operation::Insert { pos: i, text: ch.to_string() }, before, GroupContext::Typing);
    }
    let after = cursor(0, 5);
    let restored = stack.undo(&mut buf, after);
    assert!(restored.is_some());
    assert_eq!(buf.text(), "");
}

#[test]
fn test_grouping_different_context() {
    let mut buf = Buffer::new();
    let mut stack = UndoStack::new();
    let before = cursor(0, 0);
    buf.insert(0, "h");
    stack.record(Operation::Insert { pos: 0, text: "h".to_string() }, before, GroupContext::Typing);
    buf.insert(1, "i");
    stack.record(Operation::Insert { pos: 1, text: "i".to_string() }, cursor(0, 1), GroupContext::Typing);
    buf.insert(2, "world");
    stack.record(Operation::Insert { pos: 2, text: "world".to_string() }, cursor(0, 2), GroupContext::Paste);
    let after = cursor(0, 7);
    let restored = stack.undo(&mut buf, after);
    assert!(restored.is_some());
    assert_eq!(buf.text(), "hi");
    let restored2 = stack.undo(&mut buf, cursor(0, 2));
    assert!(restored2.is_some());
    assert_eq!(buf.text(), "");
}

#[test]
fn test_cursor_restoration() {
    let mut buf = Buffer::new();
    let mut stack = UndoStack::new();
    let before = cursor(0, 0);
    buf.insert(0, "hello");
    stack.record(Operation::Insert { pos: 0, text: "hello".to_string() }, before, GroupContext::Paste);
    let after = cursor(0, 5);
    let restored = stack.undo(&mut buf, after).unwrap();
    assert_eq!(restored.line, 0);
    assert_eq!(restored.col, 0);
}

#[test]
fn test_saved_position() {
    let mut buf = Buffer::new();
    let mut stack = UndoStack::new();
    assert!(stack.is_at_saved());
    buf.insert(0, "hello");
    stack.record(Operation::Insert { pos: 0, text: "hello".to_string() }, cursor(0, 0), GroupContext::Paste);
    stack.mark_saved(cursor(0, 5));
    assert!(stack.is_at_saved());
    buf.insert(5, " world");
    stack.record(Operation::Insert { pos: 5, text: " world".to_string() }, cursor(0, 5), GroupContext::Paste);
    assert!(!stack.is_at_saved());
    stack.undo(&mut buf, cursor(0, 11));
    assert!(stack.is_at_saved());
}

// ---------------------------------------------------------------------------

#[test]
fn undo_with_empty_history_reports_nothing() {
    let mut buf = Buffer::new();
    buf.insert(0, "abc");
    let mut stack = UndoStack::new();
    assert!(stack.undo(&mut buf, cursor(0, 3)).is_none());
    assert!(stack.redo(&mut buf).is_none());
    assert_eq!(buf.text(), "abc");
}

#[test]
fn apply_then_undo_restores_content_and_cursor() {
    let mut buf = Buffer::new();
    buf.insert(0, "one\ntwo");
    let mut stack = UndoStack::new();
    let ops = [
        Operation::Delete { pos: 3, text: "\n".to_string() },
        Operation::Insert { pos: 3, text: " & ".to_string() },
        Operation::Insert { pos: 0, text: "ñ".to_string() },
    ];
    for (i, op) in ops.into_iter().enumerate() {
        op.apply(&mut buf);
        let ctx = if i == 0 { GroupContext::Deleting } else { GroupContext::Typing };
        stack.record_with_timeout(op, cursor(0, 3), ctx, false);
        if i == 0 {
            stack.finish_group(cursor(0, 3));
        }
    }
    assert_eq!(buf.text(), "ñone & two");
    let restored = stack.undo(&mut buf, cursor(0, 9)).unwrap();
    assert_eq!(buf.text(), "onetwo");
    assert_eq!(restored, cursor(0, 3));
    let redone = stack.redo(&mut buf).unwrap();
    assert_eq!(buf.text(), "ñone & two");
    assert_eq!(redone, cursor(0, 9));
    let again = stack.undo(&mut buf, cursor(0, 9)).unwrap();
    assert_eq!(buf.text(), "onetwo");
    assert_eq!(again, cursor(0, 3));
    stack.undo(&mut buf, cursor(0, 3));
    assert_eq!(buf.text(), "one\ntwo");
}

#[test]
fn five_quick_typing_inserts_undo_together() {
    let mut buf = Buffer::new();
    let mut stack = UndoStack::new();
    for i in 0..5 {
        let op = Operation::Insert { pos: i, text: "x".to_string() };
        op.apply(&mut buf);
        stack.record_with_timeout(op, cursor(0, i), GroupContext::Typing, false);
    }
    assert_eq!(buf.text(), "xxxxx");
    let restored = stack.undo(&mut buf, cursor(0, 5)).unwrap();
    assert_eq!(buf.text(), "");
    assert_eq!(restored, cursor(0, 0));
    assert!(stack.undo(&mut buf, cursor(0, 0)).is_none());
}

#[test]
fn typing_pause_starts_new_group() {
    let mut buf = Buffer::new();
    let mut stack = UndoStack::new();
    let a = Operation::Insert { pos: 0, text: "a".to_string() };
    a.apply(&mut buf);
    stack.record_with_timeout(a, cursor(0, 0), GroupContext::Typing, false);
    let b = Operation::Insert { pos: 1, text: "b".to_string() };
    b.apply(&mut buf);
    stack.record_with_timeout(b, cursor(0, 1), GroupContext::Typing, true);
    stack.undo(&mut buf, cursor(0, 2));
    assert_eq!(buf.text(), "a");
}

#[test]
fn paste_never_joins_typing() {
    let mut buf = Buffer::new();
    let mut stack = UndoStack::new();
    let t = Operation::Insert { pos: 0, text: "ab".to_string() };
    t.apply(&mut buf);
    stack.record_with_timeout(t, cursor(0, 0), GroupContext::Typing, false);
    let p = Operation::Insert { pos: 2, text: "PASTE".to_string() };
    p.apply(&mut buf);
    stack.record_with_timeout(p, cursor(0, 2), GroupContext::Paste, false);
    let t2 = Operation::Insert { pos: 7, text: "c".to_string() };
    t2.apply(&mut buf);
    stack.record_with_timeout(t2, cursor(0, 7), GroupContext::Typing, false);
    stack.undo(&mut buf, cursor(0, 8));
    assert_eq!(buf.text(), "abPASTE");
    stack.undo(&mut buf, cursor(0, 7));
    assert_eq!(buf.text(), "ab");
    stack.undo(&mut buf, cursor(0, 2));
    assert_eq!(buf.text(), "");
}

#[test]
fn invert_swaps_kind() {
    let op = Operation::Insert { pos: 4, text: "xy".to_string() };
    match op.invert() {
        Operation::Delete { pos, text } => {
            assert_eq!(pos, 4);
            assert_eq!(text, "xy");
        }
        Operation::Insert { .. } => panic!("expected a deletion"),
    }
}

#[test]
fn clear_drops_history() {
    let mut buf = Buffer::new();
    let mut stack = UndoStack::new();
    buf.insert(0, "a");
    stack.record(Operation::Insert { pos: 0, text: "a".to_string() }, cursor(0, 0), GroupContext::Other);
    assert!(!stack.is_at_saved());
    stack.clear();
    assert!(stack.is_at_saved());
    assert!(stack.undo(&mut buf, cursor(0, 1)).is_none());
}

#[test]
fn mark_saved_keeps_pending_edits_undoable() {
    let mut buf = Buffer::new();
    let mut stack = UndoStack::new();
    let op = Operation::Insert { pos: 0, text: "abc".to_string() };
    op.apply(&mut buf);
    stack.record_with_timeout(op, cursor(0, 0), GroupContext::Typing, false);
    stack.mark_saved(cursor(0, 3));
    assert!(stack.is_at_saved());
    let restored = stack.undo(&mut buf, cursor(0, 3)).unwrap();
    assert_eq!(buf.text(), "");
    assert_eq!(restored, cursor(0, 0));
    assert!(!stack.is_at_saved());
}
