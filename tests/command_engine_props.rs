use cxedit::command_engine::{CommandEngine, Operation, OperationResult};
use cxedit::key::KeyCode;
use cxedit::text_buffer::Textbuffer;

fn engine(s: &str) -> CommandEngine {
    let mut tb = Textbuffer::new();
    tb.insert_data(s);
    CommandEngine::new(tb)
}

fn ok(r: OperationResult) -> bool {
    matches!(r, OperationResult::OK)
}

fn text(e: &CommandEngine) -> String {
    e.buffer().dump_to_string()
}

fn cursor(e: &CommandEngine) -> usize {
    e.buffer().get_absolute_cursor_pos()
}

#[test]
fn backspace_then_undo_restores_text_and_cursor() {
    let mut e = engine("hello");
    assert!(ok(e.execute(Operation::Remove(5, 'o'))));
    assert_eq!(text(&e), "hell");
    assert!(ok(e.execute(Operation::Undo)));
    assert_eq!(text(&e), "hello");
    assert_eq!(cursor(&e), 5);
}

#[test]
fn backspace_at_start_fails_without_change() {
    let mut empty = engine("");
    assert!(!ok(empty.execute(Operation::Remove(0, 'x'))));
    assert_eq!(text(&empty), "");
    let mut e = engine("abc");
    e.execute(Operation::Insert(0, 'z'));
    e.execute(Operation::Undo);
    assert_eq!(cursor(&e), 0);
    assert!(!ok(e.execute(Operation::Remove(0, 'a'))));
    assert_eq!(text(&e), "abc");
    assert_eq!(cursor(&e), 0);
    match e.execute(Operation::Remove(0, 'a')) {
        OperationResult::ERR(msg) => assert!(!msg.is_empty()),
        OperationResult::OK => panic!("removal before the start succeeded"),
    }
}

#[test]
fn edits_then_undos_round_trip() {
    let mut e = engine("hello world");
    let start_text = text(&e);
    let start_cursor = cursor(&e);
    let ops = vec![
        Operation::Insert(11, '!'),
        Operation::Remove(3, 'l'),
        Operation::Delete(0, 'h'),
        Operation::InsertData(4, "XYZ".to_string()),
        Operation::Insert(2, '\n'),
        Operation::Remove(13, '?'),
    ];
    let n = ops.len();
    for op in ops {
        assert!(ok(e.execute(op)));
    }
    assert_ne!(text(&e), start_text);
    for _ in 0..n {
        assert!(ok(e.execute(Operation::Undo)));
    }
    assert_eq!(text(&e), start_text);
    assert_eq!(cursor(&e), start_cursor);
    assert!(!ok(e.execute(Operation::Undo)));
}

#[test]
fn undo_of_each_kind() {
    let mut e = engine("abc");
    e.execute(Operation::Delete(1, 'b'));
    assert_eq!(text(&e), "ac");
    e.execute(Operation::Undo);
    assert_eq!(text(&e), "abc");
    assert_eq!(cursor(&e), 1);
    e.execute(Operation::InsertData(3, "def".to_string()));
    assert_eq!(text(&e), "abcdef");
    assert_eq!(cursor(&e), 6);
    e.execute(Operation::Undo);
    assert_eq!(text(&e), "abc");
    assert_eq!(cursor(&e), 3);
}

#[test]
fn redo_reapplies_undone_edits() {
    let mut e = engine("ab");
    e.execute(Operation::Insert(1, 'x'));
    e.execute(Operation::Remove(3, 'b'));
    assert_eq!(text(&e), "ax");
    e.execute(Operation::Undo);
    e.execute(Operation::Undo);
    assert_eq!(text(&e), "ab");
    assert!(ok(e.execute(Operation::Redo)));
    assert_eq!(text(&e), "axb");
    assert!(ok(e.execute(Operation::Redo)));
    assert_eq!(text(&e), "ax");
    assert!(!ok(e.execute(Operation::Redo)));
}

#[test]
fn redo_of_bulk_insert_goes_character_by_character() {
    let mut e = engine("");
    e.execute(Operation::InsertData(0, "hi!".to_string()));
    e.execute(Operation::Undo);
    assert_eq!(text(&e), "");
    assert_eq!(e.forward_history().len(), 3);
    for _ in 0..3 {
        assert!(ok(e.execute(Operation::Redo)));
    }
    assert_eq!(text(&e), "hi!");
    assert!(!ok(e.execute(Operation::Redo)));
    for _ in 0..3 {
        assert!(ok(e.execute(Operation::Undo)));
    }
    assert_eq!(text(&e), "");
}

#[test]
fn undo_pushes_inverse_entries() {
    let mut e = engine("ab");
    e.execute(Operation::Insert(1, 'x'));
    e.execute(Operation::Undo);
    assert!(matches!(e.forward_history().last(), Some(Operation::Remove(1, 'x'))));
    e.execute(Operation::Delete(0, 'a'));
    e.execute(Operation::Undo);
    assert!(matches!(e.forward_history().last(), Some(Operation::Insert(0, 'a'))));
    e.execute(Operation::Remove(2, 'b'));
    e.execute(Operation::Undo);
    assert!(matches!(e.forward_history().last(), Some(Operation::Insert(1, 'b'))));
    assert!(ok(e.execute(Operation::Redo)));
    assert!(matches!(e.history().last(), Some(Operation::Remove(1, 'b'))));
    assert_eq!(text(&e), "a");
}

#[test]
fn cursor_moves_and_save_marks_pristine() {
    let mut e = engine("ab");
    assert!(e.buffer().is_dirty());
    let p = e.move_cursor(cxedit::cmd::MoveKind::Char(cxedit::cmd::MoveDir::Previous)).unwrap();
    assert_eq!(p.absolute, 1);
    assert_eq!(cursor(&e), 1);
    e.set_pristine();
    assert!(!e.buffer().is_dirty());
    assert_eq!(text(&e), "ab");
}

#[test]
fn new_edit_clears_redo() {
    let mut e = engine("a");
    e.execute(Operation::Insert(1, 'b'));
    e.execute(Operation::Undo);
    e.execute(Operation::Insert(1, 'c'));
    assert!(!ok(e.execute(Operation::Redo)));
    assert_eq!(text(&e), "ac");
}

#[test]
fn delete_at_end_fails() {
    let mut e = engine("ab");
    assert!(!ok(e.execute(Operation::Delete(2, 'x'))));
    assert_eq!(text(&e), "ab");
}

#[test]
fn edits_past_end_fail_without_change() {
    let mut e = engine("ab");
    e.execute(Operation::Insert(0, 'z'));
    e.execute(Operation::Undo);
    assert_eq!(cursor(&e), 0);
    assert!(!ok(e.execute(Operation::Delete(5, 'x'))));
    assert!(!ok(e.execute(Operation::Insert(50, 'c'))));
    assert!(!ok(e.execute(Operation::InsertData(3, "xy".to_string()))));
    assert!(!ok(e.execute(Operation::Remove(3, 'b'))));
    assert_eq!(text(&e), "ab");
    assert_eq!(cursor(&e), 0);
    assert!(ok(e.execute(Operation::Redo)));
    assert_eq!(text(&e), "zab");
}

#[test]
fn redo_of_delete_logs_the_delete() {
    let mut e = engine("ab");
    assert!(ok(e.execute(Operation::Delete(0, 'a'))));
    assert!(ok(e.execute(Operation::Undo)));
    assert_eq!((text(&e).as_str(), cursor(&e)), ("ab", 0));
    assert!(ok(e.execute(Operation::Redo)));
    assert_eq!((text(&e).as_str(), cursor(&e)), ("b", 0));
    assert!(ok(e.execute(Operation::Undo)));
    assert_eq!((text(&e).as_str(), cursor(&e)), ("ab", 0));
}

#[test]
fn unsupported_operations_fail() {
    let mut e = engine("ab");
    assert!(!ok(e.execute(Operation::MacroRecord)));
    assert!(!ok(e.execute(Operation::MacroStop)));
    assert!(!ok(e.execute(Operation::MacroPlay("m".to_string()))));
    assert!(!ok(e.execute(Operation::Copy(cxedit::text_buffer::ObjectKind::Word))));
    assert!(!ok(e.execute(Operation::Redo)));
    assert_eq!(text(&e), "ab");
}

#[test]
fn engine_bookkeeping() {
    let mut e = engine("ab");
    e.set_last_key(KeyCode::CtrlW);
    assert_eq!(e.combo_trigger, Some(KeyCode::CtrlW));
    e.execute(Operation::Insert(0, 'z'));
    e.register_buffer(Textbuffer::from_text("new"));
    assert_eq!(text(&e), "new");
    assert!(!ok(e.execute(Operation::Undo)));
}

#[test]
fn removing_another_character_than_named_warns() {
    let mut e = engine("abc");
    assert!(ok(e.execute(Operation::Remove(3, 'x'))));
    assert_eq!(text(&e), "ab");
    assert!(e.warning().is_some());
    assert!(ok(e.execute(Operation::Remove(2, 'b'))));
    assert!(e.warning().is_none());
    assert!(ok(e.execute(Operation::Undo)));
    assert!(e.warning().is_none());
}
