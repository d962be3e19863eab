//! Terminal colours and the ANSI sequences that select them.
use vstd::prelude::*;
use crate::strings::{chars_of, push_char};

verus! {

#[derive(Clone, Copy, Debug, PartialEq, Eq, Structural)]
pub enum Color {
    Black,
    Red,
    Green,
    Yellow,
    Blue,
    Magenta,
    Cyan,
    White,
    BrightCyan,
}

/// The ANSI foreground code of a colour.
pub open spec fn color_code(c: Color) -> nat {
    match c {
        Color::Black => 30,
        Color::Red => 31,
        Color::Green => 32,
        Color::Yellow => 33,
        Color::Blue => 34,
        Color::Magenta => 35,
        Color::Cyan => 36,
        Color::White => 37,
        Color::BrightCyan => 96,
    }
}

impl Color {
    pub fn code(&self) -> (r: u32)
        ensures
            r == color_code(*self),
    {
        match self {
            Color::Black => 30,
            Color::Red => 31,
            Color::Green => 32,
            Color::Yellow => 33,
            Color::Blue => 34,
            Color::Magenta => 35,
            Color::Cyan => 36,
            Color::White => 37,
            Color::BrightCyan => 96,
        }
    }
}

#[derive(Clone, Copy, Debug, PartialEq, Eq, Structural)]
pub enum SetColor {
    Foreground(Color),
    Background(Color),
}

/// The decimal digit `d`.
pub open spec fn digit_char(d: nat) -> char {
    if d == 0 {
        '0'
    } else if d == 1 {
        '1'
    } else if d == 2 {
        '2'
    } else if d == 3 {
        '3'
    } else if d == 4 {
        '4'
    } else if d == 5 {
        '5'
    } else if d == 6 {
        '6'
    } else if d == 7 {
        '7'
    } else if d == 8 {
        '8'
    } else {
        '9'
    }
}

/// The decimal notation of `n`.
pub open spec fn decimal(n: nat) -> Seq<char>
    decreases n,
{
    if n < 10 {
        seq![digit_char(n)]
    } else {
        decimal(n / 10).push(digit_char(n % 10))
    }
}

/// The ANSI sequence that selects a colour for the foreground or the background.
pub open spec fn select_sequence(c: SetColor) -> Seq<char> {
    let n = match c {
        SetColor::Foreground(color) => color_code(color),
        SetColor::Background(color) => color_code(color) + 10,
    };
    seq!['\x1b', '['] + decimal(n) + seq!['m']
}

/// The ANSI sequence that restores the terminal's default colours.
pub open spec fn reset_sequence() -> Seq<char> {
    seq!['\x1b', '[', 'm']
}

fn digit(d: u32) -> (r: char)
    requires
        d < 10,
    ensures
        r == digit_char(d as nat),
{
    match d {
        0 => '0',
        1 => '1',
        2 => '2',
        3 => '3',
        4 => '4',
        5 => '5',
        6 => '6',
        7 => '7',
        8 => '8',
        _ => '9',
    }
}

fn push_decimal(out: &mut String, n: u32)
    ensures
        final(out)@ == old(out)@ + decimal(n as nat),
    decreases n,
{
    if n >= 10 {
        push_decimal(out, n / 10);
    }
    push_char(out, digit(n % 10));
    proof {
        if n >= 10 {
            assert(decimal(n as nat) == decimal((n / 10) as nat).push(digit_char((n % 10) as nat)));
        } else {
            assert(decimal(n as nat) == seq![digit_char(n as nat)]);
        }
        assert(final(out)@ =~= old(out)@ + decimal(n as nat));
    }
}

impl SetColor {
    /// The ANSI sequence that selects this colour.
    pub fn sequence(&self) -> (r: String)
        ensures
            r@ == select_sequence(*self),
    {
        let n = match self {
            SetColor::Foreground(color) => color.code(),
            SetColor::Background(color) => color.code() + 10,
        };
        let mut out = String::new();
        push_char(&mut out, '\x1b');
        push_char(&mut out, '[');
        push_decimal(&mut out, n);
        push_char(&mut out, 'm');
        assert(out@ =~= select_sequence(*self));
        out
    }

    /// `data` in this colour, followed by the sequence that restores the
    /// default colours.
    pub fn colorize(&self, data: &str) -> (r: String)
        ensures
            r@ == select_sequence(*self) + data@ + reset_sequence(),
    {
        let mut out = self.sequence();
        let cs = chars_of(data);
        let ghost start = out@;
        let mut i: usize = 0;
        while i < cs.len()
            invariant
                i <= cs@.len(),
                cs@ == data@,
                start == select_sequence(*self),
                out@ == start + cs@.subrange(0, i as int),
            decreases cs@.len() - i,
        {
            push_char(&mut out, cs[i]);
            assert(out@ =~= start + cs@.subrange(0, i + 1));
            i = i + 1;
        }
        push_char(&mut out, '\x1b');
        push_char(&mut out, '[');
        push_char(&mut out, 'm');
        assert(out@ =~= select_sequence(*self) + data@ + reset_sequence());
        out
    }
}

} // verus!
