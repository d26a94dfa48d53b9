use vstd::prelude::*;

verus! {

/// The class of a character, as word motions see it.
#[derive(Clone, Copy, Debug, PartialEq, Eq, Structural)]
pub enum CharType {
    Text,
    Punct,
    Space,
}

/// ASCII punctuation: `!` to `/`, `:` to `@`, `[` to `` ` ``, `{` to `~`.
pub open spec fn is_ascii_punct_spec(c: char) -> bool {
    let u = c as u32;
    (0x21 <= u <= 0x2f) || (0x3a <= u <= 0x40) || (0x5b <= u <= 0x60) || (0x7b <= u <= 0x7e)
}

/// The characters with the Unicode `White_Space` property.
pub open spec fn is_whitespace_spec(c: char) -> bool {
    let u = c as u32;
    (0x09 <= u <= 0x0d) || u == 0x20 || u == 0x85 || u == 0xa0 || u == 0x1680 || (0x2000 <= u
        <= 0x200a) || u == 0x2028 || u == 0x2029 || u == 0x202f || u == 0x205f || u == 0x3000
}

/// Punctuation wins over white space; everything else is text.
pub open spec fn classify_spec(c: char) -> CharType {
    if is_ascii_punct_spec(c) {
        CharType::Punct
    } else if is_whitespace_spec(c) {
        CharType::Space
    } else {
        CharType::Text
    }
}

/// Whether `c` is ASCII punctuation.
pub fn is_ascii_punct(c: char) -> (b: bool)
    ensures
        b == is_ascii_punct_spec(c),
{
    let u = c as u32;
    (0x21 <= u && u <= 0x2f) || (0x3a <= u && u <= 0x40) || (0x5b <= u && u <= 0x60) || (0x7b <= u
        && u <= 0x7e)
}

/// Whether `c` is white space in the Unicode sense.
pub fn is_whitespace(c: char) -> (b: bool)
    ensures
        b == is_whitespace_spec(c),
{
    let u = c as u32;
    (0x09 <= u && u <= 0x0d) || u == 0x20 || u == 0x85 || u == 0xa0 || u == 0x1680 || (0x2000 <= u
        && u <= 0x200a) || u == 0x2028 || u == 0x2029 || u == 0x202f || u == 0x205f || u == 0x3000
}

/// Classifies a character for word motions.
pub fn classify(ch: char) -> (t: CharType)
    ensures
        t == classify_spec(ch),
{
    if is_ascii_punct(ch) {
        CharType::Punct
    } else if is_whitespace(ch) {
        CharType::Space
    } else {
        CharType::Text
    }
}

} // verus!
