use cxedit::cmd::{flag_match, Command, StatlineCommandFlag, StatlineCommandFlagList};
use cxedit::color::{Color, SetColor};
use cxedit::command_engine::{Macro, Operation};
use cxedit::config::Config;
use cxedit::files::{check_save_target, io_failure, FileOpt, SaveFileError};
use cxedit::key::{EscapeKeyCode, KeyCode};

#[test]
fn key_codes_round_trip_through_bytes() {
    assert_eq!(KeyCode::CtrlS.to_idx(), 19);
    assert_eq!(KeyCode::Enter.to_idx(), 13);
    assert_eq!(KeyCode::Character('a').to_idx(), 0);
    assert_eq!(KeyCode::from_idx(26), KeyCode::CtrlZ);
    assert_eq!(KeyCode::from_idx(13), KeyCode::Unknown);
    assert_eq!(EscapeKeyCode::Up.output(), "\x1b[1A");
    assert_eq!(EscapeKeyCode::Left.output(), "\x1b[1D");
}

#[test]
fn flags_are_parsed_from_characters() {
    assert!(matches!(flag_match('!'), Some(StatlineCommandFlag::Force)));
    assert!(flag_match('x').is_none());
    let list = StatlineCommandFlagList::from_flags(" -x#");
    assert_eq!(
        list.has_to_vec(),
        Some(vec![StatlineCommandFlag::Deny, StatlineCommandFlag::SameWindow])
    );
    assert!(StatlineCommandFlagList::from_flags("abc").has_to_vec().is_none());
}

#[test]
fn command_prompts() {
    assert_eq!(Command::Jump.prompt(), "[goto]: ");
    assert_eq!(Command::Open.prompt(), "[open]: ");
    assert_eq!(Command::Quit.prompt(), "");
}

#[test]
fn colours_produce_ansi_sequences() {
    assert_eq!(SetColor::Background(Color::Blue).colorize("hi"), "\x1b[44mhi\x1b[m");
    assert_eq!(SetColor::Foreground(Color::White).sequence(), "\x1b[37m");
    assert_eq!(SetColor::Background(Color::BrightCyan).sequence(), "\x1b[106m");
    assert_eq!(Color::Red.code(), 31);
}

#[test]
fn save_target_rules() {
    assert!(check_save_target("a.txt", false, None).is_ok());
    assert!(check_save_target("a.txt", true, Some(FileOpt::Overwrite)).is_ok());
    match check_save_target("a.txt", true, None) {
        Err(e) => assert_eq!(e.message(), "a.txt exists already, writing to file denied."),
        Ok(()) => panic!("existing file accepted"),
    }
    assert!(check_save_target("a.txt", true, Some(FileOpt::NoOverwrite)).is_err());
    let e = io_failure("b.txt", "disk full");
    assert_eq!(e.message(), "Writing to b.txt failed. Underlying cause was: disk full");
    assert!(matches!(e, SaveFileError::Other(_, _)));
}

#[test]
fn default_bindings() {
    let cfg = Config::default();
    assert!(matches!(cfg.get_binding(KeyCode::CtrlS), Some(Command::Save)));
    assert!(matches!(cfg.get_binding(KeyCode::CtrlZ), Some(Command::Action(Operation::Undo))));
    assert!(cfg.get_binding(KeyCode::CtrlA).is_none());
    let combo = cfg.get_combo_bindings(&KeyCode::CtrlW).unwrap();
    assert_eq!(combo.len(), 1);
    assert!(cfg.get_combo_bindings(&KeyCode::CtrlO).is_none());
}

#[test]
fn empty_macro_plays_nothing() {
    let m = Macro::default();
    assert_eq!(m.play(), "");
}
