use vstd::prelude::*;
use crate::types::Pos;

verus! {

/// A selection: where it started and where it ends now.
#[derive(Clone, Copy, Debug, PartialEq, Eq, Structural)]
pub struct Sel {
    pub start: Pos,
    pub end: Pos,
}

impl Sel {
    /// The empty selection at `pos`.
    pub fn from_pos(pos: Pos) -> (s: Self)
        ensures
            s == (Sel { start: pos, end: pos }),
    {
        Sel { start: pos, end: pos }
    }
}

} // verus!
