use vstd::prelude::*;
use crate::command::CommandBuilder;
use crate::key::Key;

verus! {

/// What an input can set off: a command, a key, leaving, or nothing.
pub enum Trigger {
    Command(CommandBuilder),
    Key(Key),
    Exit,
    Noop,
}

} // verus!
