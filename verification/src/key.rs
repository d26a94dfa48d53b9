use vstd::prelude::*;
use crate::text::{push_char, push_str};

verus! {

/// A key press, as the terminal reports it.
#[derive(Clone, Copy, Debug, PartialEq, Eq, Structural, Hash)]
pub enum Key {
    Esc,
    EscSeq1(u8),
    EscSeq2(u8, u8),
    Up,
    Down,
    Left,
    Right,
    Home,
    End,
    Del,
    PageUp,
    PageDown,
    PrintScreen,
    Backspace,
    Enter,
    Ctrl(char),
    Utf8(char),
    Function(u8),
    NoKey,
}

/// The decimal digits of `n`.
pub open spec fn decimal(n: nat) -> Seq<char>
    decreases n,
{
    if n < 10 {
        seq![digit_char(n)]
    } else {
        decimal(n / 10) + seq![digit_char(n % 10)]
    }
}

/// The character of the digit `d`.
pub open spec fn digit_char(d: nat) -> char {
    if d == 0 {
        '0'
    } else if d == 1 {
        '1'
    } else if d == 2 {
        '2'
    } else if d == 3 {
        '3'
    } else if d == 4 {
        '4'
    } else if d == 5 {
        '5'
    } else if d == 6 {
        '6'
    } else if d == 7 {
        '7'
    } else if d == 8 {
        '8'
    } else {
        '9'
    }
}

/// The character of the digit `d`.
pub fn digit_to_char(d: u8) -> (c: char)
    requires
        d < 10,
    ensures
        c == digit_char(d as nat),
{
    if d == 0 {
        '0'
    } else if d == 1 {
        '1'
    } else if d == 2 {
        '2'
    } else if d == 3 {
        '3'
    } else if d == 4 {
        '4'
    } else if d == 5 {
        '5'
    } else if d == 6 {
        '6'
    } else if d == 7 {
        '7'
    } else if d == 8 {
        '8'
    } else {
        '9'
    }
}

/// Appends the decimal digits of `n` to `s`.
pub fn push_decimal(s: &mut String, n: u8)
    ensures
        final(s)@ == old(s)@ + decimal(n as nat),
    decreases n,
{
    if n < 10 {
        push_char(s, digit_to_char(n));
    } else {
        push_decimal(s, n / 10);
        push_char(s, digit_to_char(n % 10));
    }
}

/// Appends the decimal digits of `n` to `s`.
pub fn push_decimal_usize(s: &mut String, n: usize)
    ensures
        final(s)@ == old(s)@ + decimal(n as nat),
    decreases n,
{
    if n < 10 {
        push_char(s, digit_to_char(n as u8));
    } else {
        push_decimal_usize(s, n / 10);
        push_char(s, digit_to_char((n % 10) as u8));
    }
}

/// Appends the decimal digits of `n` to `s`.
pub fn push_decimal_u64(s: &mut String, n: u64)
    ensures
        final(s)@ == old(s)@ + decimal(n as nat),
    decreases n,
{
    if n < 10 {
        push_char(s, digit_to_char(n as u8));
    } else {
        push_decimal_u64(s, n / 10);
        push_char(s, digit_to_char((n % 10) as u8));
    }
}

/// The character whose code is the byte `b`.
pub open spec fn byte_char(b: u8) -> char {
    b as char
}

/// The text that names a key.
pub open spec fn key_text(k: Key) -> Seq<char> {
    match k {
        Key::PageUp => "<PageUp>"@,
        Key::PageDown => "<PageDown>"@,
        Key::Home => "<Home>"@,
        Key::End => "<End>"@,
        Key::Del => "<Del>"@,
        Key::Up => "<Up>"@,
        Key::Down => "<Down>"@,
        Key::Left => "<Left>"@,
        Key::Right => "<Right>"@,
        Key::Ctrl(ch) => "<C-"@ + seq![ch] + ">"@,
        Key::Utf8(ch) => seq![ch],
        Key::Enter => "<Enter>"@,
        Key::Esc => "<Esc>"@,
        Key::EscSeq1(a) => "<Esc-"@ + seq![byte_char(a)] + ">"@,
        Key::EscSeq2(a, b) => "<Esc-"@ + seq![byte_char(a)] + "-"@ + seq![byte_char(b)] + ">"@,
        Key::Function(a) => "<F"@ + decimal(a as nat) + ">"@,
        Key::PrintScreen => "<PrintScreen>"@,
        Key::Backspace => "<Backspace>"@,
        Key::NoKey => "<>"@,
    }
}

impl Key {
    /// The key of the character `c`.
    pub fn from_char(c: char) -> (k: Key)
        ensures
            k == Key::Utf8(c),
    {
        Key::Utf8(c)
    }

    /// The text that names the key.
    pub fn to_string(&self) -> (s: String)
        ensures
            s@ == key_text(*self),
    {
        let mut s = String::new();
        match *self {
            Key::PageUp => push_str(&mut s, "<PageUp>"),
            Key::PageDown => push_str(&mut s, "<PageDown>"),
            Key::Home => push_str(&mut s, "<Home>"),
            Key::End => push_str(&mut s, "<End>"),
            Key::Del => push_str(&mut s, "<Del>"),
            Key::Up => push_str(&mut s, "<Up>"),
            Key::Down => push_str(&mut s, "<Down>"),
            Key::Left => push_str(&mut s, "<Left>"),
            Key::Right => push_str(&mut s, "<Right>"),
            Key::Ctrl(ch) => {
                push_str(&mut s, "<C-");
                push_char(&mut s, ch);
                push_str(&mut s, ">");
            },
            Key::Utf8(ch) => push_char(&mut s, ch),
            Key::Enter => push_str(&mut s, "<Enter>"),
            Key::Esc => push_str(&mut s, "<Esc>"),
            Key::EscSeq1(a) => {
                push_str(&mut s, "<Esc-");
                push_char(&mut s, a as char);
                push_str(&mut s, ">");
            },
            Key::EscSeq2(a, b) => {
                push_str(&mut s, "<Esc-");
                push_char(&mut s, a as char);
                push_str(&mut s, "-");
                push_char(&mut s, b as char);
                push_str(&mut s, ">");
            },
            Key::Function(a) => {
                push_str(&mut s, "<F");
                push_decimal(&mut s, a);
                push_str(&mut s, ">");
            },
            Key::PrintScreen => push_str(&mut s, "<PrintScreen>"),
            Key::Backspace => push_str(&mut s, "<Backspace>"),
            Key::NoKey => push_str(&mut s, "<>"),
        }
        proof {
            reveal_strlit("");
        }
        s
    }
}

} // verus!
