use cxedit::cmd::{MoveDir, MoveKind};
use cxedit::comms::{Event, EventData};
use cxedit::text_buffer::{Cursor, ObjectKind, TextPosition, Textbuffer};

fn buffer(s: &str) -> Textbuffer {
    let mut tb = Textbuffer::new();
    tb.insert_data(s);
    tb
}

fn span(r: (TextPosition, TextPosition)) -> (usize, usize) {
    (r.0.absolute, r.1.absolute)
}

#[test]
fn line_scan_without_newline_covers_everything() {
    let tb = buffer("hello world");
    assert_eq!(span(tb.find_range_of(Cursor::Absolute(7), ObjectKind::Line)), (0, 11));
}

#[test]
fn line_scan_stops_at_newline() {
    let tb = buffer("hello\nworld");
    let (b, e) = tb.find_range_of(Cursor::Absolute(7), ObjectKind::Line);
    assert_eq!((b.absolute, e.absolute), (6, 11));
    assert_eq!(b.line_number, 1);
    assert_eq!(b.line_start_absolute, 6);
    assert_eq!(tb.get_data_range(b.absolute, e.absolute), "world");
}

#[test]
fn word_scan_finds_inclusive_word() {
    let tb = buffer("hello world");
    assert_eq!(span(tb.find_range_of(Cursor::Absolute(7), ObjectKind::Word)), (6, 10));
    assert_eq!(span(tb.find_range_of(Cursor::Absolute(2), ObjectKind::Word)), (0, 4));
    let empty = Textbuffer::new();
    assert_eq!(span(empty.find_range_of(Cursor::Absolute(0), ObjectKind::Word)), (0, 0));
}

#[test]
fn block_scan_matches_braces() {
    let tb = buffer("a{b{c}d}e");
    assert_eq!(span(tb.find_range_of(Cursor::Absolute(4), ObjectKind::Block)), (3, 5));
    assert_eq!(span(tb.find_range_of(Cursor::Absolute(6), ObjectKind::Block)), (1, 7));
    assert_eq!(span(tb.find_range_of(Cursor::Absolute(9), ObjectKind::Block)), (0, 9));
    let open = buffer("x{y{z");
    assert_eq!(span(open.find_range_of(Cursor::Absolute(5), ObjectKind::Block)), (3, 5));
}

#[test]
fn scan_from_buffer_cursor_uses_edit_point() {
    let mut tb = buffer("ab\ncd");
    tb.set_textpos(4);
    assert_eq!(span(tb.find_range_of(Cursor::Buffer, ObjectKind::Line)), (3, 5));
}

#[test]
fn cursor_tracks_lines_on_insert() {
    let mut tb = Textbuffer::new();
    tb.insert_ch('a');
    tb.insert_ch('\n');
    tb.insert_ch('b');
    let tp = tb.get_textpos();
    assert_eq!(tp.absolute, 3);
    assert_eq!(tp.line_start_absolute, 2);
    assert_eq!(tp.line_number, 1);
    assert_eq!(tp.get_line_position(), 1);
    assert_eq!(tb.get_line_number(), 2);
    assert_eq!(tb.get_line_number_editing(), 1);
    assert!(tb.is_dirty());
    tb.set_pristine();
    assert!(!tb.is_dirty());
}

#[test]
fn insert_data_with_newlines_updates_cursor() {
    let mut tb = buffer("one\ntwo\nthree");
    let tp = tb.get_textpos();
    assert_eq!((tp.absolute, tp.line_start_absolute, tp.line_number), (13, 8, 2));
    tb.set_textpos(4);
    tb.insert_data("X\nY");
    assert_eq!(tb.dump_to_string(), "one\nX\nYtwo\nthree");
    let tp = tb.get_textpos();
    assert_eq!((tp.absolute, tp.line_start_absolute, tp.line_number), (7, 6, 2));
}

#[test]
fn remove_and_delete_at_cursor() {
    let mut tb = buffer("ab\nc");
    assert_eq!(tb.remove(), Some('c'));
    assert_eq!(tb.remove(), Some('\n'));
    assert_eq!(tb.get_textpos().line_number, 0);
    tb.set_textpos(0);
    assert_eq!(tb.remove(), None);
    assert_eq!(tb.delete(), Some('a'));
    assert_eq!(tb.dump_to_string(), "b");
    tb.set_textpos(1);
    assert_eq!(tb.delete(), None);
}

#[test]
fn set_textpos_past_end_is_ignored() {
    let mut tb = buffer("abc");
    tb.set_textpos(1);
    tb.set_textpos(10);
    assert_eq!(tb.get_absolute_cursor_pos(), 1);
    assert_eq!(tb.get_gap_textpos().absolute, 1);
}

#[test]
fn get_at_is_bounds_checked() {
    let tb = buffer("xyz");
    assert_eq!(tb.get_at(1), Some('y'));
    assert_eq!(tb.get_at(3), None);
    assert_eq!(tb.len(), 3);
}

#[test]
fn line_lookups() {
    let tb = buffer("ab\ncde\n\nf");
    let s1 = tb.get_line_start_abs(1).unwrap();
    assert_eq!((s1.absolute, s1.line_number), (3, 1));
    let s3 = tb.get_line_start_abs(3).unwrap();
    assert_eq!(s3.absolute, 8);
    assert!(tb.get_line_start_abs(4).is_none());
    let e1 = tb.get_line_end_abs(1).unwrap();
    assert_eq!((e1.absolute, e1.line_start_absolute), (6, 3));
    let e3 = tb.get_line_end_abs(3).unwrap();
    assert_eq!(e3.absolute, 9);
    let past = tb.get_line_end_abs(5).unwrap();
    assert_eq!((past.absolute, past.line_start_absolute, past.line_number), (9, 8, 3));
    let empty = Textbuffer::new();
    let e = empty.get_line_end_abs(1).unwrap();
    assert_eq!((e.absolute, e.line_start_absolute, e.line_number), (0, 0, 0));
    let info = tb.get_text_position_info(5);
    assert_eq!((info.line_start_absolute, info.line_number), (3, 1));
    let one_based = tb.get_line_number_at(5);
    assert_eq!(one_based.line_number, 2);
    let far = tb.line_from_buffer_index(100).unwrap();
    assert_eq!((far.absolute, far.line_start_absolute, far.line_number), (100, 8, 3));
}

#[test]
fn line_at_cursor_includes_newline() {
    let mut tb = buffer("ab\ncd\nef");
    tb.set_textpos(4);
    assert_eq!(tb.get_line_at_cursor(), "cd\n");
    tb.set_textpos(7);
    assert_eq!(tb.get_line_at_cursor(), "ef");
}

#[test]
fn row_col_of_cursor() {
    let tb = buffer("ab\ncde");
    assert_eq!(Cursor::Absolute(5).to_row_col(&tb), (2, 1));
    assert_eq!(Cursor::Buffer.to_row_col(&tb), (0, 0));
}

#[test]
fn move_cursor_by_characters() {
    let mut tb = buffer("a\nb");
    let p = tb.move_cursor(MoveKind::Char(MoveDir::Next)).unwrap();
    assert_eq!(p.absolute, 3);
    let p = tb.move_cursor(MoveKind::Char(MoveDir::Previous)).unwrap();
    assert_eq!((p.absolute, p.line_number), (2, 1));
    let p = tb.move_cursor(MoveKind::Char(MoveDir::Previous)).unwrap();
    assert_eq!((p.absolute, p.line_number), (1, 0));
    let p = tb.move_cursor(MoveKind::Word(MoveDir::Next)).unwrap();
    assert_eq!(p.absolute, 1);
}

#[test]
fn clear_and_reload() {
    let mut tb = Textbuffer::from_text("x\ny\n");
    assert_eq!(tb.get_absolute_cursor_pos(), 0);
    assert_eq!(tb.dump_to_string(), "x\ny\n");
    assert!(!tb.is_dirty());
    tb.clear_buffer_contents();
    assert_eq!(tb.len(), 0);
    assert_eq!(tb.dump_to_string(), "");
}

#[test]
fn insertions_are_announced_to_listener() {
    let mut tb = Textbuffer::new();
    tb.insert_ch('q');
    assert!(tb.take_events().is_empty());
    tb.register_view();
    tb.insert_ch('r');
    tb.insert_data("st");
    let events = tb.take_events();
    assert_eq!(events.len(), 2);
    match &events[0] {
        Event::INSERTION(at, EventData::Char(c)) => assert_eq!((*at, *c), (1, 'r')),
        _ => panic!("unexpected event"),
    }
    match &events[1] {
        Event::INSERTION(at, EventData::CharRange(t)) => assert_eq!((*at, t.as_str()), (2, "st")),
        _ => panic!("unexpected event"),
    }
    assert!(tb.take_events().is_empty());
}
