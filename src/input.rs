//! What the editor does about one key press.
use vstd::prelude::*;
use crate::cmd::{Command, MoveDir, MoveKind};
use crate::command_engine::{char_at, Operation};
use crate::config::{first_binding, Config};
use crate::key::{EscapeKeyCode, KeyCode};
use crate::text_buffer::Textbuffer;

verus! {

/// The editor's input modes.
pub enum Mode {
    Normal,
    Movement,
    Command,
}

/// The response to a key press.
pub enum KeyAction {
    /// Execute an operation on the command engine.
    Edit(Operation),
    /// Move the cursor without touching the log.
    Move(MoveKind),
    Save,
    Open,
    Quit,
    Nothing,
}

/// The response to `key` with the cursor at `cursor` in `text`, for every
/// key but Tab: characters and Enter are inserted at the cursor, Backspace
/// removes the character before it (and does nothing at the start), arrows
/// move, and any other key does what its binding in `cfg` names.
pub open spec fn action_of(cfg: Config, key: KeyCode, text: Seq<char>, cursor: usize) -> KeyAction {
    match key {
        KeyCode::Character(c) => KeyAction::Edit(Operation::Insert(cursor, c)),
        KeyCode::Enter => KeyAction::Edit(Operation::Insert(cursor, '\n')),
        KeyCode::Backspace => if cursor > 0 {
            KeyAction::Edit(Operation::Remove(cursor, char_at(text, cursor - 1)))
        } else {
            KeyAction::Nothing
        },
        KeyCode::Escaped(EscapeKeyCode::Left) => KeyAction::Move(MoveKind::Char(MoveDir::Previous)),
        KeyCode::Escaped(EscapeKeyCode::Right) => KeyAction::Move(MoveKind::Char(MoveDir::Next)),
        KeyCode::Escaped(EscapeKeyCode::Up) => KeyAction::Move(MoveKind::Line(MoveDir::Previous)),
        KeyCode::Escaped(EscapeKeyCode::Down) => KeyAction::Move(MoveKind::Line(MoveDir::Next)),
        _ => {
            let i = first_binding(cfg.bindings(), key);
            if i < 0 {
                KeyAction::Nothing
            } else {
                match cfg.bindings()[i].1 {
                    Command::Save => KeyAction::Save,
                    Command::Open => KeyAction::Open,
                    Command::Quit => KeyAction::Quit,
                    Command::Action(Operation::Undo) => KeyAction::Edit(Operation::Undo),
                    Command::Action(Operation::Redo) => KeyAction::Edit(Operation::Redo),
                    _ => KeyAction::Nothing,
                }
            }
        },
    }
}

/// The text that Tab inserts.
pub open spec fn tab_text() -> Seq<char> {
    seq![' ', ' ', ' ', ' ']
}

/// Decides what to do about `key`, with the cursor of `tb`: Tab inserts
/// four spaces at the cursor, every other key is answered by `action_of`.
pub fn action_for_key(cfg: &Config, key: KeyCode, tb: &Textbuffer) -> (r: KeyAction)
    requires
        tb.wf(),
    ensures
        key is Tab ==> (match r {
            KeyAction::Edit(Operation::InsertData(p, t)) => p == tb.spec_cursor().absolute
                && t@ == tab_text(),
            _ => false,
        }),
        !(key is Tab) ==> r == action_of(*cfg, key, tb@, tb.spec_cursor().absolute),
{
    let cursor = tb.get_absolute_cursor_pos();
    proof {
        tb.lemma_wf_consequences();
    }
    match key {
        KeyCode::Character(c) => KeyAction::Edit(Operation::Insert(cursor, c)),
        KeyCode::Enter => KeyAction::Edit(Operation::Insert(cursor, '\n')),
        KeyCode::Tab => {
            let spaces = "    ".to_owned();
            proof {
                reveal_strlit("    ");
                assert(spaces@ =~= tab_text());
            }
            KeyAction::Edit(Operation::InsertData(cursor, spaces))
        },
        KeyCode::Backspace => if cursor > 0 {
            match tb.get_at(cursor - 1) {
                Some(c) => KeyAction::Edit(Operation::Remove(cursor, c)),
                None => KeyAction::Nothing,
            }
        } else {
            KeyAction::Nothing
        },
        KeyCode::Escaped(EscapeKeyCode::Left) => KeyAction::Move(MoveKind::Char(MoveDir::Previous)),
        KeyCode::Escaped(EscapeKeyCode::Right) => KeyAction::Move(MoveKind::Char(MoveDir::Next)),
        KeyCode::Escaped(EscapeKeyCode::Up) => KeyAction::Move(MoveKind::Line(MoveDir::Previous)),
        KeyCode::Escaped(EscapeKeyCode::Down) => KeyAction::Move(MoveKind::Line(MoveDir::Next)),
        _ => match cfg.get_binding(key) {
            Some(Command::Save) => KeyAction::Save,
            Some(Command::Open) => KeyAction::Open,
            Some(Command::Quit) => KeyAction::Quit,
            Some(Command::Action(Operation::Undo)) => KeyAction::Edit(Operation::Undo),
            Some(Command::Action(Operation::Redo)) => KeyAction::Edit(Operation::Redo),
            _ => KeyAction::Nothing,
        },
    }
}

} // verus!
