use cxedit::cmd::{MoveDir, MoveKind};
use cxedit::command_engine::Operation;
use cxedit::config::Config;
use cxedit::input::{action_for_key, KeyAction};
use cxedit::key::{decode_key, EscapeKeyCode, KeyCode};
use cxedit::text_buffer::{TextPosition, Textbuffer};
use cxedit::view::{View, ViewCursor, ViewOperations, ViewRange, WinDim, WinSize};

#[test]
fn decode_control_and_printable_bytes() {
    assert_eq!(decode_key(&[19]), KeyCode::CtrlS);
    assert_eq!(decode_key(&[13]), KeyCode::Enter);
    assert_eq!(decode_key(&[127]), KeyCode::Backspace);
    assert_eq!(decode_key(&[b'a']), KeyCode::Character('a'));
    assert_eq!(decode_key(&[4]), KeyCode::Unknown);
    assert_eq!(decode_key(&[]), KeyCode::Unknown);
}

#[test]
fn decode_escape_sequences_and_two_byte_characters() {
    assert_eq!(decode_key(&[27]), KeyCode::Esc);
    assert_eq!(decode_key(&[27, b'[', b'A']), KeyCode::Escaped(EscapeKeyCode::Up));
    assert_eq!(decode_key(&[27, b'[', b'D']), KeyCode::Escaped(EscapeKeyCode::Left));
    assert_eq!(decode_key(&[27, b'[']), KeyCode::Unknown);
    assert_eq!(decode_key("é".as_bytes()), KeyCode::Character('é'));
    assert_eq!(decode_key("ø".as_bytes()), KeyCode::Character('ø'));
    assert_eq!(decode_key(&[195]), KeyCode::Unknown);
}

#[test]
fn keys_map_to_actions() {
    let cfg = Config::default();
    let mut tb = Textbuffer::new();
    tb.insert_data("abcd");
    tb.set_textpos(3);
    assert!(matches!(
        action_for_key(&cfg, KeyCode::Character('x'), &tb),
        KeyAction::Edit(Operation::Insert(3, 'x'))
    ));
    assert!(matches!(
        action_for_key(&cfg, KeyCode::Enter, &tb),
        KeyAction::Edit(Operation::Insert(3, '\n'))
    ));
    assert!(matches!(
        action_for_key(&cfg, KeyCode::Backspace, &tb),
        KeyAction::Edit(Operation::Remove(3, 'c'))
    ));
    match action_for_key(&cfg, KeyCode::Tab, &tb) {
        KeyAction::Edit(Operation::InsertData(3, t)) => assert_eq!(t, "    "),
        _ => panic!("Tab does not insert spaces"),
    }
    assert!(matches!(
        action_for_key(&cfg, KeyCode::Escaped(EscapeKeyCode::Right), &tb),
        KeyAction::Move(MoveKind::Char(MoveDir::Next))
    ));
    assert!(matches!(action_for_key(&cfg, KeyCode::CtrlZ, &tb), KeyAction::Edit(Operation::Undo)));
    assert!(matches!(action_for_key(&cfg, KeyCode::CtrlS, &tb), KeyAction::Save));
    assert!(matches!(action_for_key(&cfg, KeyCode::CtrlQ, &tb), KeyAction::Quit));
    assert!(matches!(action_for_key(&cfg, KeyCode::CtrlB, &tb), KeyAction::Nothing));
    tb.set_textpos(0);
    assert!(matches!(action_for_key(&cfg, KeyCode::Backspace, &tb), KeyAction::Nothing));
}

#[test]
fn positions_compare_by_offset_only() {
    let a = TextPosition::from((5, 0, 0));
    let b = TextPosition::from((5, 3, 1));
    let c = TextPosition::from((7, 3, 1));
    assert!(a == b);
    assert!(a < c);
    assert!(c > b);
    assert_eq!(a.partial_cmp(&c), Some(std::cmp::Ordering::Less));
    let t = TextPosition::new();
    assert_eq!((t.absolute, t.get_line_start_abs(), t.line_number), (0, 0, 0));
}

#[test]
fn view_geometry() {
    let v = View::with_size(WinDim::from(WinSize { ws_row: 24, ws_col: 80, ws_xpixel: 0, ws_ypixel: 0 }));
    assert_eq!(v.get_text_area_height(), 23);
    assert_eq!(v.line_range, 0..23);
    assert_eq!(v.status_line_position, ViewCursor { row: 24, col: 1 });
    assert_eq!(ViewOperations::ClearLineRest.as_output(), "\x1b[0K");
    let ws = WinSize::new();
    assert_eq!((ws.ws_row, ws.ws_col), (0, 0));
    assert_eq!(ViewCursor::default(), ViewCursor { row: 1, col: 1 });
    let tp = TextPosition::from((7, 4, 2));
    assert_eq!(ViewCursor::from_position(tp), ViewCursor { row: 3, col: 4 });
}

#[test]
fn view_scrolls_by_half_screens() {
    let mut tb = Textbuffer::new();
    for i in 0..40 {
        tb.insert_data(&format!("line {}\n", i));
    }
    let mut v = View::with_size(WinDim(80, 11));
    v.scroll_down(&tb);
    assert_eq!(v.line_range, 5..15);
    assert_eq!(v.top_line.absolute, tb.get_line_start_abs(5).unwrap().absolute);
    v.scroll_up(&tb);
    assert_eq!(v.line_range, 0..10);
    v.scroll_up(&tb);
    assert_eq!(v.line_range, 0..10);
    let mut r = 3..8;
    r.shift_forward(2);
    assert_eq!(r, 5..10);
    r.shift_backward(5);
    assert_eq!(r, 0..5);
}

#[test]
fn view_follows_cursor_line() {
    let mut tb = Textbuffer::new();
    for i in 0..30 {
        tb.insert_data(&format!("row {}\n", i));
    }
    tb.insert_data("end");
    let mut v = View::with_size(WinDim(80, 11));
    v.check_at_boundary_cross(&tb);
    assert_eq!(v.line_range, 21..31);
    assert_eq!(v.view_cursor, ViewCursor { row: 10, col: 4 });
    tb.set_textpos(0);
    v.check_at_boundary_cross(&tb);
    assert_eq!(v.line_range, 0..10);
    assert_eq!(v.view_cursor, ViewCursor { row: 1, col: 1 });
    assert_eq!(v.top_line.absolute, 0);
}

#[test]
fn view_registers_for_insertions() {
    let mut tb = Textbuffer::new();
    let v = View::with_size(WinDim(40, 5));
    v.register_as_listener(&mut tb);
    tb.insert_ch('k');
    assert_eq!(tb.take_events().len(), 1);
}
