use vstd::prelude::*;
use crate::key::Key;
use crate::message::Message;
use crate::target::Target;

verus! {

/// What a key binding produces: a key, a message for a target, or a
/// sequence of them.
#[derive(Debug)]
pub enum DK {
    Key(Key),
    Dispatch(Target, Message),
    Sequence(Vec<DK>),
}

} // verus!
