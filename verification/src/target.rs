use vstd::prelude::*;
use crate::error::{error_msg, Error};
use crate::view::ViewKey;

verus! {

/// Where a message goes.
#[derive(Clone, Debug, PartialEq, Eq)]
pub enum Target {
    View(ViewKey),
    Named(String),
    Previous,
    Focused,
    ViewMap,
    Root,
}

impl Target {
    /// Targets cannot be parsed from text: this always fails.
    pub fn from_str(_s: &str) -> (r: Result<Target, Error>)
        ensures
            r matches Err(e) && e is General && e.message_view() == "not impl yet"@,
    {
        Err(error_msg("not impl yet"))
    }
}

} // verus!
