use vstd::prelude::*;
use crate::key::{decimal, push_decimal};
use crate::text::{push_char, push_str};

verus! {

/// A terminal color; `NoColor` is the terminal's default.
#[derive(Clone, Copy, Debug, PartialEq, Eq, Structural)]
pub enum Color {
    NoColor,
    Black,
    Red,
    Green,
    Yellow,
    Blue,
    Purple,
    Cyan,
    White,
    Rgb { r: u8, g: u8, b: u8 },
}

/// A foreground color.
pub type FgColor = Color;

/// A background color.
pub type BgColor = Color;

/// The digit of a named color in the terminal's escape codes.
pub open spec fn color_digit(c: Color) -> char {
    match c {
        Color::Black => '0',
        Color::Red => '1',
        Color::Green => '2',
        Color::Yellow => '3',
        Color::Blue => '4',
        Color::Purple => '5',
        Color::Cyan => '6',
        Color::White => '7',
        _ => '9',
    }
}

/// The escape sequence that selects `c`; `layer` is `'3'` for the
/// foreground and `'4'` for the background.
pub open spec fn color_escape(c: Color, layer: char) -> Seq<char> {
    match c {
        Color::Rgb { r, g, b } => "\x1b["@ + seq![layer] + "8;2;"@ + decimal(r as nat) + ";"@
            + decimal(g as nat) + ";"@ + decimal(b as nat) + "m"@,
        _ => "\x1b["@ + seq![layer, color_digit(c)] + "m"@,
    }
}

impl Color {
    fn digit(&self) -> (d: char)
        ensures
            d == color_digit(*self),
    {
        match self {
            Color::Black => '0',
            Color::Red => '1',
            Color::Green => '2',
            Color::Yellow => '3',
            Color::Blue => '4',
            Color::Purple => '5',
            Color::Cyan => '6',
            Color::White => '7',
            _ => '9',
        }
    }

    /// The escape sequence that selects this color, for the foreground
    /// (`layer` `'3'`) or the background (`layer` `'4'`).
    pub fn escape(&self, layer: char) -> (s: String)
        ensures
            s@ == color_escape(*self, layer),
    {
        let mut s = String::new();
        push_str(&mut s, "\x1b[");
        push_char(&mut s, layer);
        match *self {
            Color::Rgb { r, g, b } => {
                push_str(&mut s, "8;2;");
                push_decimal(&mut s, r);
                push_str(&mut s, ";");
                push_decimal(&mut s, g);
                push_str(&mut s, ";");
                push_decimal(&mut s, b);
                push_str(&mut s, "m");
            },
            _ => {
                push_char(&mut s, self.digit());
                push_str(&mut s, "m");
            },
        }
        proof {
            reveal_strlit("");
        }
        assert(s@ =~= color_escape(*self, layer));
        s
    }

    /// The escape sequence that selects this color for the foreground.
    pub fn fg_escape(&self) -> (s: String)
        ensures
            s@ == color_escape(*self, '3'),
    {
        self.escape('3')
    }

    /// The escape sequence that selects this color for the background.
    pub fn bg_escape(&self) -> (s: String)
        ensures
            s@ == color_escape(*self, '4'),
    {
        self.escape('4')
    }
}

} // verus!
