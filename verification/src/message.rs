use vstd::prelude::*;
use crate::key::Key;
use crate::variant::Variant;

verus! {

/// What is delivered to a target: a key, or a command with arguments.
#[derive(Clone, Debug)]
pub enum Message {
    SendKey(Key),
    Command { name: String, args: Vec<Variant> },
}

} // verus!
