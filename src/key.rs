//! Logical keys that the input layer decodes from raw bytes.
use vstd::prelude::*;

verus! {

#[derive(Clone, Copy, Debug, PartialEq, Eq, Structural, Hash, PartialOrd)]
pub enum KeyCode {
    CtrlBackspace,
    CtrlA,
    CtrlB,
    CtrlC,
    CtrlG,
    CtrlS,
    CtrlV,
    CtrlO,
    CtrlQ,
    CtrlZ,
    CtrlW,
    Enter,
    Tab,
    Esc,
    Backspace,
    Character(char),
    Escaped(EscapeKeyCode),
    Unknown,
}

#[derive(Clone, Copy, Debug, PartialEq, Eq, Structural, Hash, PartialOrd)]
pub enum EscapeKeyCode {
    Left,
    Right,
    Up,
    Down,
}

/// The control byte that a key sends, or 0 for a key without one.
pub open spec fn key_byte(k: KeyCode) -> usize {
    match k {
        KeyCode::CtrlA => 1,
        KeyCode::CtrlB => 2,
        KeyCode::CtrlC => 3,
        KeyCode::CtrlG => 7,
        KeyCode::CtrlBackspace => 8,
        KeyCode::Tab => 9,
        KeyCode::Enter => 13,
        KeyCode::CtrlO => 15,
        KeyCode::CtrlQ => 17,
        KeyCode::CtrlS => 19,
        KeyCode::CtrlV => 22,
        KeyCode::CtrlW => 23,
        KeyCode::CtrlZ => 26,
        _ => 0,
    }
}

/// The command key that a control byte stands for, or `KeyCode::Unknown`.
pub open spec fn key_of_byte(idx: usize) -> KeyCode {
    if idx == 1 {
        KeyCode::CtrlA
    } else if idx == 2 {
        KeyCode::CtrlB
    } else if idx == 3 {
        KeyCode::CtrlC
    } else if idx == 19 {
        KeyCode::CtrlS
    } else if idx == 15 {
        KeyCode::CtrlO
    } else if idx == 17 {
        KeyCode::CtrlQ
    } else if idx == 26 {
        KeyCode::CtrlZ
    } else {
        KeyCode::Unknown
    }
}

impl KeyCode {
    pub fn to_idx(&self) -> (r: usize)
        ensures
            r == key_byte(*self),
    {
        match self {
            KeyCode::CtrlA => 1,
            KeyCode::CtrlB => 2,
            KeyCode::CtrlC => 3,
            KeyCode::CtrlG => 7,
            KeyCode::CtrlBackspace => 8,
            KeyCode::Tab => 9,
            KeyCode::Enter => 13,
            KeyCode::CtrlO => 15,
            KeyCode::CtrlQ => 17,
            KeyCode::CtrlS => 19,
            KeyCode::CtrlV => 22,
            KeyCode::CtrlW => 23,
            KeyCode::CtrlZ => 26,
            _ => 0,
        }
    }

    pub fn from_idx(idx: usize) -> (r: KeyCode)
        ensures
            r == key_of_byte(idx),
    {
        match idx {
            1 => KeyCode::CtrlA,
            2 => KeyCode::CtrlB,
            3 => KeyCode::CtrlC,
            19 => KeyCode::CtrlS,
            15 => KeyCode::CtrlO,
            17 => KeyCode::CtrlQ,
            26 => KeyCode::CtrlZ,
            _ => KeyCode::Unknown,
        }
    }
}

impl EscapeKeyCode {
    /// The ANSI sequence that moves the terminal cursor one step this way.
    pub fn output(&self) -> (r: &'static str)
        ensures
            r@ == match *self {
                EscapeKeyCode::Down => "\x1b[1B"@,
                EscapeKeyCode::Up => "\x1b[1A"@,
                EscapeKeyCode::Left => "\x1b[1D"@,
                EscapeKeyCode::Right => "\x1b[1C"@,
            },
    {
        match self {
            EscapeKeyCode::Down => "\x1b[1B",
            EscapeKeyCode::Up => "\x1b[1A",
            EscapeKeyCode::Left => "\x1b[1D",
            EscapeKeyCode::Right => "\x1b[1C",
        }
    }
}

/// The key that a byte sequence read from the terminal stands for: a
/// control byte, an escape sequence for an arrow key, a printable ASCII
/// character, or a two-byte UTF-8 character whose first byte is 195.
pub open spec fn key_of_bytes(bytes: Seq<u8>) -> KeyCode {
    if bytes.len() == 0 {
        KeyCode::Unknown
    } else {
        let b = bytes[0];
        if b == 27 {
            if bytes.len() == 1 {
                KeyCode::Esc
            } else if bytes.len() >= 3 && bytes[1] == 91 {
                if bytes[2] == 65 {
                    KeyCode::Escaped(EscapeKeyCode::Up)
                } else if bytes[2] == 66 {
                    KeyCode::Escaped(EscapeKeyCode::Down)
                } else if bytes[2] == 67 {
                    KeyCode::Escaped(EscapeKeyCode::Right)
                } else if bytes[2] == 68 {
                    KeyCode::Escaped(EscapeKeyCode::Left)
                } else {
                    KeyCode::Unknown
                }
            } else {
                KeyCode::Unknown
            }
        } else if b == 195 {
            if bytes.len() >= 2 && 128 <= bytes[1] < 192 {
                KeyCode::Character(((bytes[1] + 64) as u8) as char)
            } else {
                KeyCode::Unknown
            }
        } else if b == 127 {
            KeyCode::Backspace
        } else if key_of_byte(b as usize) != KeyCode::Unknown {
            key_of_byte(b as usize)
        } else if b == 7 {
            KeyCode::CtrlG
        } else if b == 8 {
            KeyCode::CtrlBackspace
        } else if b == 9 {
            KeyCode::Tab
        } else if b == 13 {
            KeyCode::Enter
        } else if b == 22 {
            KeyCode::CtrlV
        } else if b == 23 {
            KeyCode::CtrlW
        } else if 32 <= b < 127 {
            KeyCode::Character(b as char)
        } else {
            KeyCode::Unknown
        }
    }
}

/// Decodes one key press from the bytes read for it.
pub fn decode_key(bytes: &[u8]) -> (r: KeyCode)
    ensures
        r == key_of_bytes(bytes@),
{
    if bytes.len() == 0 {
        return KeyCode::Unknown;
    }
    let b = bytes[0];
    if b == 27 {
        if bytes.len() == 1 {
            KeyCode::Esc
        } else if bytes.len() >= 3 && bytes[1] == 91 {
            match bytes[2] {
                65 => KeyCode::Escaped(EscapeKeyCode::Up),
                66 => KeyCode::Escaped(EscapeKeyCode::Down),
                67 => KeyCode::Escaped(EscapeKeyCode::Right),
                68 => KeyCode::Escaped(EscapeKeyCode::Left),
                _ => KeyCode::Unknown,
            }
        } else {
            KeyCode::Unknown
        }
    } else if b == 195 {
        if bytes.len() >= 2 && 128 <= bytes[1] && bytes[1] < 192 {
            KeyCode::Character((bytes[1] + 64) as char)
        } else {
            KeyCode::Unknown
        }
    } else if b == 127 {
        KeyCode::Backspace
    } else {
        let k = KeyCode::from_idx(b as usize);
        if k != KeyCode::Unknown {
            k
        } else {
            match b {
                7 => KeyCode::CtrlG,
                8 => KeyCode::CtrlBackspace,
                9 => KeyCode::Tab,
                13 => KeyCode::Enter,
                22 => KeyCode::CtrlV,
                23 => KeyCode::CtrlW,
                _ => if 32 <= b && b < 127 {
                    KeyCode::Character(b as char)
                } else {
                    KeyCode::Unknown
                },
            }
        }
    }
}

} // verus!
