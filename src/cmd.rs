//! Editor commands, the movements they name, and the flags of status-line
//! commands.
use vstd::prelude::*;
use crate::command_engine::Operation;
use crate::strings::chars_of;

verus! {

/// Something that can hand out a copy of itself as an `Option`.
pub trait ToOption where Self: Sized {
    fn as_option(&self) -> Option<Self>;
}

#[derive(Clone, Copy, Debug, PartialEq, Eq, Structural)]
pub enum MoveDir {
    Previous,
    Next,
}

#[derive(Clone, Copy, Debug, PartialEq, Eq, Structural)]
pub enum MoveKind {
    Word(MoveDir),
    Line(MoveDir),
    Char(MoveDir),
}

impl ToOption for MoveKind {
    fn as_option(&self) -> (r: Option<MoveKind>)
        ensures
            r == Some(*self),
    {
        Some(*self)
    }
}

#[derive(Clone)]
pub enum Command {
    Move(MoveKind),
    CommandInput,
    Jump,
    Find,
    Save,
    Open,
    Quit,
    Action(Operation),
}

/// The status-line title that announces a command, empty for commands
/// without one.
pub open spec fn prompt_of(cmd: &Command) -> Seq<char> {
    match *cmd {
        Command::Jump => seq!['[', 'g', 'o', 't', 'o', ']', ':', ' '],
        Command::Find => seq!['[', 'f', 'i', 'n', 'd', ']', ':', ' '],
        Command::Save => seq!['[', 's', 'a', 'v', 'e', ']', ':', ' '],
        Command::Open => seq!['[', 'o', 'p', 'e', 'n', ']', ':', ' '],
        _ => Seq::empty(),
    }
}

impl Command {
    pub fn prompt(&self) -> (r: String)
        ensures
            r@ == prompt_of(self),
    {
        let s = match self {
            Command::Jump => "[goto]: ",
            Command::Find => "[find]: ",
            Command::Save => "[save]: ",
            Command::Open => "[open]: ",
            _ => "",
        };
        let r = s.to_owned();
        proof {
            match *self {
                Command::Jump => {
                    reveal_strlit("[goto]: ");
                    assert(r@ =~= prompt_of(self));
                },
                Command::Find => {
                    reveal_strlit("[find]: ");
                    assert(r@ =~= prompt_of(self));
                },
                Command::Save => {
                    reveal_strlit("[save]: ");
                    assert(r@ =~= prompt_of(self));
                },
                Command::Open => {
                    reveal_strlit("[open]: ");
                    assert(r@ =~= prompt_of(self));
                },
                _ => {
                    reveal_strlit("");
                    assert(r@ =~= prompt_of(self));
                },
            }
        }
        r
    }
}

#[derive(Clone, Copy, Debug, PartialEq, Eq, Structural)]
pub enum StatlineCommandFlag {
    Force,
    Deny,
    RequestPermission,
    SameWindow,
    SameWindowClose,
}

/// The flag that a character stands for.
pub open spec fn flag_of(ch: char) -> Option<StatlineCommandFlag> {
    if ch == '!' {
        Some(StatlineCommandFlag::Force)
    } else if ch == '-' {
        Some(StatlineCommandFlag::Deny)
    } else if ch == '?' {
        Some(StatlineCommandFlag::RequestPermission)
    } else if ch == '#' {
        Some(StatlineCommandFlag::SameWindow)
    } else if ch == '_' {
        Some(StatlineCommandFlag::SameWindowClose)
    } else {
        None
    }
}

/// The flags that the characters of `s` stand for, in order; other
/// characters are skipped.
pub open spec fn flags_in(s: Seq<char>) -> Seq<StatlineCommandFlag>
    decreases s.len(),
{
    if s.len() == 0 {
        Seq::empty()
    } else {
        match flag_of(s.last()) {
            Some(f) => flags_in(s.drop_last()).push(f),
            None => flags_in(s.drop_last()),
        }
    }
}

pub fn flag_match(ch: char) -> (r: Option<StatlineCommandFlag>)
    ensures
        r == flag_of(ch),
{
    match ch {
        '!' => Some(StatlineCommandFlag::Force),
        '-' => Some(StatlineCommandFlag::Deny),
        '?' => Some(StatlineCommandFlag::RequestPermission),
        '#' => Some(StatlineCommandFlag::SameWindow),
        '_' => Some(StatlineCommandFlag::SameWindowClose),
        _ => None,
    }
}

/// The flags given to a status-line command.
pub struct StatlineCommandFlagList {
    flags: Vec<StatlineCommandFlag>,
}

impl View for StatlineCommandFlagList {
    type V = Seq<StatlineCommandFlag>;

    closed spec fn view(&self) -> Seq<StatlineCommandFlag> {
        self.flags@
    }
}

impl StatlineCommandFlagList {
    /// The flags that the characters of `flags` stand for.
    pub fn from_flags(flags: &str) -> (r: StatlineCommandFlagList)
        ensures
            r@ == flags_in(flags@),
    {
        let cs = chars_of(flags);
        let mut out: Vec<StatlineCommandFlag> = Vec::new();
        let mut i: usize = 0;
        while i < cs.len()
            invariant
                i <= cs@.len(),
                cs@ == flags@,
                out@ == flags_in(cs@.subrange(0, i as int)),
            decreases cs@.len() - i,
        {
            proof {
                assert(cs@.subrange(0, i + 1).drop_last() =~= cs@.subrange(0, i as int));
            }
            match flag_match(cs[i]) {
                Some(f) => out.push(f),
                None => {},
            }
            i = i + 1;
        }
        proof {
            assert(cs@.subrange(0, cs@.len() as int) =~= cs@);
        }
        StatlineCommandFlagList { flags: out }
    }

    /// The flags, or `None` when there are none.
    pub fn has_to_vec(&self) -> (r: Option<Vec<StatlineCommandFlag>>)
        ensures
            self@.len() == 0 ==> r is None,
            self@.len() > 0 ==> r is Some && r->0@ == self@,
    {
        if self.flags.len() > 0 {
            let mut out: Vec<StatlineCommandFlag> = Vec::new();
            let mut i: usize = 0;
            while i < self.flags.len()
                invariant
                    i <= self.flags@.len(),
                    out@ == self.flags@.subrange(0, i as int),
                decreases self.flags@.len() - i,
            {
                out.push(self.flags[i]);
                assert(out@ =~= self.flags@.subrange(0, i + 1));
                i = i + 1;
            }
            assert(out@ =~= self.flags@);
            Some(out)
        } else {
            None
        }
    }
}

/// A command entered on the status line, parsed.
pub enum StatlineCommand {
    OpenFile(Option<String>, Option<Vec<StatlineCommandFlag>>),
    SaveFile(Option<String>, Option<Vec<StatlineCommandFlag>>),
    Goto(Option<usize>),
    Find(Option<String>),
    Error(String),
}

/// A piece of buffer content: one character or a run of bytes.
pub enum BufferObject {
    Character(char),
    CharRange(Vec<u8>),
}

/// Content put into a buffer at a position.
pub struct Insert {
    pub at_position: usize,
    pub data: BufferObject,
}

/// Content taken out of a buffer at a position.
pub struct Delete {
    pub at_position: usize,
    pub data: BufferObject,
}

} // verus!
