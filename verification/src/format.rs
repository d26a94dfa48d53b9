use vstd::prelude::*;
use crate::color::{BgColor, Color, FgColor};

verus! {

/// The colors of a glyph.
#[derive(Clone, Copy, Debug, PartialEq, Eq, Structural)]
pub struct Format {
    pub fg: FgColor,
    pub bg: BgColor,
}

impl Format {
    /// The terminal's default colors.
    pub fn none() -> (f: Self)
        ensures
            f == (Format { fg: Color::NoColor, bg: Color::NoColor }),
    {
        Format { fg: Color::NoColor, bg: Color::NoColor }
    }

    /// The colors of selected text: black on white.
    pub fn selected() -> (f: Self)
        ensures
            f == (Format { fg: Color::Black, bg: Color::White }),
    {
        Format { fg: Color::Black, bg: Color::White }
    }

    /// A foreground color on the default background.
    pub fn from_fg(fg: FgColor) -> (f: Self)
        ensures
            f == (Format { fg, bg: Color::NoColor }),
    {
        Format { fg, bg: Color::NoColor }
    }
}

} // verus!
