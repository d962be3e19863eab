//! Editor settings: key bindings, history size and colours.
use vstd::prelude::*;
use crate::cmd::Command;
use crate::color::{Color, SetColor};
use crate::command_engine::Operation;
use crate::key::KeyCode;
use crate::text_buffer::ObjectKind;

verus! {

/// How much command history to keep.
#[derive(Clone, Copy, Debug, PartialEq, Eq, Structural)]
pub enum CfgSizeOptions {
    Infinite,
    Bounded(usize),
    Disabled,
}

/// Index of the first entry of `bs` bound to `kc`, or -1 when none is.
pub open spec fn first_binding<V>(bs: Seq<(KeyCode, V)>, kc: KeyCode) -> int
    decreases bs.len(),
{
    if bs.len() == 0 {
        -1
    } else if first_binding(bs.drop_last(), kc) >= 0 {
        first_binding(bs.drop_last(), kc)
    } else if bs.last().0 == kc {
        bs.len() - 1
    } else {
        -1
    }
}

proof fn lemma_first_binding_step<V>(bs: Seq<(KeyCode, V)>, kc: KeyCode, i: int)
    requires
        0 <= i < bs.len(),
        first_binding(bs.subrange(0, i), kc) == -1,
    ensures
        first_binding(bs.subrange(0, i + 1), kc) == if bs[i].0 == kc {
            i
        } else {
            -1
        },
{
    assert(bs.subrange(0, i + 1).drop_last() =~= bs.subrange(0, i));
}

/// Looks `kc` up in `bs`.
fn lookup<V>(bs: &Vec<(KeyCode, V)>, kc: KeyCode) -> (r: Option<&V>)
    ensures
        first_binding(bs@, kc) == -1 ==> r is None,
        first_binding(bs@, kc) >= 0 ==> r == Some(&bs@[first_binding(bs@, kc)].1),
{
    let mut i: usize = 0;
    while i < bs.len()
        invariant
            i <= bs@.len(),
            first_binding(bs@.subrange(0, i as int), kc) == -1,
        decreases bs@.len() - i,
    {
        proof {
            lemma_first_binding_step(bs@, kc, i as int);
        }
        if bs[i].0 == kc {
            proof {
                lemma_first_binding_prefix(bs@, kc, i + 1);
            }
            return Some(&bs[i].1);
        }
        i = i + 1;
    }
    proof {
        assert(bs@.subrange(0, bs@.len() as int) =~= bs@);
    }
    None
}

/// A binding found in a prefix is the first binding of the whole sequence.
proof fn lemma_first_binding_prefix<V>(bs: Seq<(KeyCode, V)>, kc: KeyCode, n: int)
    requires
        0 <= n <= bs.len(),
        first_binding(bs.subrange(0, n), kc) >= 0,
    ensures
        first_binding(bs, kc) == first_binding(bs.subrange(0, n), kc),
    decreases bs.len() - n,
{
    if n < bs.len() {
        assert(bs.subrange(0, n + 1).drop_last() =~= bs.subrange(0, n));
        lemma_first_binding_prefix(bs, kc, n + 1);
    } else {
        assert(bs.subrange(0, n) =~= bs);
    }
}

/// The editor's settings.
pub struct Config {
    file_name: String,
    key_bindings: Vec<(KeyCode, Command)>,
    command_combo_key_bindings: Vec<(KeyCode, Vec<(KeyCode, Command)>)>,
    history_size: CfgSizeOptions,
    bg_color: SetColor,
    fg_color: SetColor,
    stat_line_color: (SetColor, SetColor),
}

impl Config {
    /// Keys bound to commands, earliest binding first.
    pub closed spec fn bindings(&self) -> Seq<(KeyCode, Command)> {
        self.key_bindings@
    }

    /// Keys that open a combination, with the bindings that may follow them.
    pub closed spec fn combo_bindings(&self) -> Seq<(KeyCode, Vec<(KeyCode, Command)>)> {
        self.command_combo_key_bindings@
    }

    /// Settings made of the given parts.
    pub fn from_parts(
        file_name: String,
        key_bindings: Vec<(KeyCode, Command)>,
        command_combo_key_bindings: Vec<(KeyCode, Vec<(KeyCode, Command)>)>,
        history_size: CfgSizeOptions,
        bg_color: SetColor,
        fg_color: SetColor,
        stat_line_color: (SetColor, SetColor),
    ) -> (r: Config)
        ensures
            r.bindings() == key_bindings@,
            r.combo_bindings() == command_combo_key_bindings@,
            r.spec_file_name() == file_name@,
            r.spec_colors() == (bg_color, fg_color, stat_line_color),
    {
        Config {
            file_name,
            key_bindings,
            command_combo_key_bindings,
            history_size,
            bg_color,
            fg_color,
            stat_line_color,
        }
    }

    pub closed spec fn spec_file_name(&self) -> Seq<char> {
        self.file_name@
    }

    /// Background, foreground and status-line colours.
    pub closed spec fn spec_colors(&self) -> (SetColor, SetColor, (SetColor, SetColor)) {
        (self.bg_color, self.fg_color, self.stat_line_color)
    }

    pub closed spec fn spec_history_size(&self) -> CfgSizeOptions {
        self.history_size
    }

    pub fn file_name(&self) -> (r: &str)
        ensures
            r@ == self.spec_file_name(),
    {
        self.file_name.as_str()
    }

    pub fn key_bindings(&self) -> (r: &Vec<(KeyCode, Command)>)
        ensures
            r@ == self.bindings(),
    {
        &self.key_bindings
    }

    pub fn combo_key_bindings(&self) -> (r: &Vec<(KeyCode, Vec<(KeyCode, Command)>)>)
        ensures
            r@ == self.combo_bindings(),
    {
        &self.command_combo_key_bindings
    }

    pub fn history_size(&self) -> (r: &CfgSizeOptions)
        ensures
            *r == self.spec_history_size(),
    {
        &self.history_size
    }

    pub fn colors(&self) -> (r: (SetColor, SetColor, (SetColor, SetColor)))
        ensures
            r == self.spec_colors(),
    {
        (self.bg_color, self.fg_color, self.stat_line_color)
    }

    /// The command bound to `kc`, if any.
    pub fn get_binding(&self, kc: KeyCode) -> (r: Option<&Command>)
        ensures
            first_binding(self.bindings(), kc) == -1 ==> r is None,
            first_binding(self.bindings(), kc) >= 0 ==> r == Some(
                &self.bindings()[first_binding(self.bindings(), kc)].1,
            ),
    {
        lookup(&self.key_bindings, kc)
    }

    /// The bindings that may follow `kc` in a key combination, if any.
    pub fn get_combo_bindings(&self, kc: &KeyCode) -> (r: Option<&Vec<(KeyCode, Command)>>)
        ensures
            first_binding(self.combo_bindings(), *kc) == -1 ==> r is None,
            first_binding(self.combo_bindings(), *kc) >= 0 ==> r == Some(
                &self.combo_bindings()[first_binding(self.combo_bindings(), *kc)].1,
            ),
    {
        lookup(&self.command_combo_key_bindings, *kc)
    }
}

impl Default for Config {
    /// The built-in settings.
    fn default() -> (r: Config)
        ensures
            r.bindings().len() == 6,
            r.bindings()[0].0 == KeyCode::CtrlO && r.bindings()[0].1 is Open,
            r.bindings()[1].0 == KeyCode::CtrlS && r.bindings()[1].1 is Save,
            r.bindings()[2].0 == KeyCode::CtrlQ && r.bindings()[2].1 is Quit,
            r.bindings()[3].0 == KeyCode::CtrlC && r.bindings()[3].1 is CommandInput,
            r.bindings()[4].0 == KeyCode::CtrlG && r.bindings()[4].1 is Jump,
            r.bindings()[5].0 == KeyCode::CtrlZ && (match r.bindings()[5].1 {
                Command::Action(Operation::Undo) => true,
                _ => false,
            }),
            r.combo_bindings().len() == 1,
            r.combo_bindings()[0].0 == KeyCode::CtrlW,
    {
        let mut key_bindings: Vec<(KeyCode, Command)> = Vec::new();
        key_bindings.push((KeyCode::CtrlO, Command::Open));
        key_bindings.push((KeyCode::CtrlS, Command::Save));
        key_bindings.push((KeyCode::CtrlQ, Command::Quit));
        key_bindings.push((KeyCode::CtrlC, Command::CommandInput));
        key_bindings.push((KeyCode::CtrlG, Command::Jump));
        key_bindings.push((KeyCode::CtrlZ, Command::Action(Operation::Undo)));
        let mut line_copy: Vec<(KeyCode, Command)> = Vec::new();
        line_copy.push((KeyCode::CtrlW, Command::Action(Operation::Copy(ObjectKind::Line))));
        let mut combos: Vec<(KeyCode, Vec<(KeyCode, Command)>)> = Vec::new();
        combos.push((KeyCode::CtrlW, line_copy));
        Config {
            file_name: "config.rc".to_owned(),
            key_bindings,
            command_combo_key_bindings: combos,
            history_size: CfgSizeOptions::Infinite,
            bg_color: SetColor::Background(Color::Blue),
            fg_color: SetColor::Foreground(Color::White),
            stat_line_color: (SetColor::Background(Color::BrightCyan), SetColor::Background(Color::Black)),
        }
    }
}

} // verus!
