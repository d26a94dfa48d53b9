use vstd::prelude::*;

verus! {

/// How long a status message stays on screen, in milliseconds.
pub const STATUS_MESSAGE_MS: u64 = 2000;

/// The outcome of a command, as the status line shows it.
#[derive(Debug)]
pub enum Status {
    /// A message, shown for `duration_ms` milliseconds from now.
    Message { message: String, duration_ms: u64 },
    Success,
    Quit,
    Cleared,
}

impl Status {
    /// A message shown for the usual time.
    pub fn message(message: String) -> (s: Self)
        ensures
            s matches Status::Message { message: m, duration_ms } && m@ == message@ && duration_ms
                == STATUS_MESSAGE_MS,
    {
        Status::Message { message, duration_ms: STATUS_MESSAGE_MS }
    }

    /// The status of a command that returned nothing.
    pub fn from_unit() -> (s: Self)
        ensures
            s is Success,
    {
        Status::Success
    }
}

} // verus!
