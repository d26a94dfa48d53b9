use vstd::prelude::*;
use crate::noun::Noun;
use crate::rel::Rel;
use crate::types::Pos;

verus! {

/// How a text object is taken: its inside, with its surroundings, or as a
/// motion.
#[derive(Clone, Copy, Debug, PartialEq, Eq, Structural)]
pub enum TextObjMod {
    Inner,
    A,
    Motion,
}

/// A text object: a noun taken relative to a position.
#[derive(Clone, Copy, Debug, PartialEq, Eq)]
pub struct TextObj {
    pub pos: Pos,
    pub obj_mod: Option<TextObjMod>,
    pub noun: Noun,
    pub rel: Rel,
}

} // verus!
