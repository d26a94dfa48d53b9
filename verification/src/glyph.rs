use vstd::prelude::*;
use crate::buf::{utf8_char, utf8_encode, Buf};
use crate::color::color_escape;
use crate::error::Error;
use crate::format::Format;

verus! {

/// One cell of the screen: a character and its colors.
#[derive(Clone, Copy, Debug, PartialEq, Eq, Structural)]
pub struct Glyph {
    pub ch: char,
    pub format: Format,
}

/// The bytes that draw glyph `g` after a glyph drawn with format `last`:
/// the colors that changed, then the character.
pub open spec fn glyph_bytes(g: Glyph, last: Format) -> Seq<u8> {
    (if last.fg != g.format.fg {
        utf8_encode(color_escape(g.format.fg, '3'))
    } else {
        Seq::empty()
    }) + (if last.bg != g.format.bg {
        utf8_encode(color_escape(g.format.bg, '4'))
    } else {
        Seq::empty()
    }) + utf8_char(g.ch)
}

impl Glyph {
    pub fn new(ch: char, format: Format) -> (g: Self)
        ensures
            g == (Glyph { ch, format }),
    {
        Glyph { ch, format }
    }

    /// The character in the default colors.
    pub fn from_char(ch: char) -> (g: Self)
        ensures
            g == (Glyph { ch, format: Format { fg: crate::color::Color::NoColor, bg: crate::color::Color::NoColor } }),
    {
        Glyph { ch, format: Format::none() }
    }

    /// Draws the glyph after one drawn with format `last`: the escape codes
    /// of the colors that changed, then the character. Returns the glyph's
    /// format.
    pub fn encode_utf8_to_buf(&self, buf: &mut Buf, last: Format) -> (r: Result<Format, Error>)
        ensures
            r == Ok::<Format, Error>(self.format),
            final(buf)@ == old(buf)@ + glyph_bytes(*self, last),
    {
        let ghost b0 = buf@;
        if last.fg != self.format.fg {
            let s = self.format.fg.fg_escape();
            buf.append(s.as_str());
        }
        let ghost b1 = buf@;
        if last.bg != self.format.bg {
            let s = self.format.bg.bg_escape();
            buf.append(s.as_str());
        }
        buf.push_char(self.ch);
        assert(buf@ =~= b0 + glyph_bytes(*self, last));
        Ok(self.format)
    }
}

} // verus!
