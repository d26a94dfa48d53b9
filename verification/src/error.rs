use vstd::prelude::*;
use crate::text::{debug_str, debug_text, push_str};

verus! {

/// The errors of the editor's operations.
#[derive(Debug)]
pub enum Error {
    General { message: String },
    IO { message: String },
    NotImplemented { message: String },
}

impl Error {
    /// The error's message.
    pub open spec fn message_view(&self) -> Seq<char> {
        match self {
            Error::General { message } => message@,
            Error::IO { message } => message@,
            Error::NotImplemented { message } => message@,
        }
    }

    pub fn new(m: String) -> (e: Self)
        ensures
            e is General,
            e.message_view() == m@,
    {
        Error::General { message: m }
    }

    pub fn new_io_error(m: String) -> (e: Self)
        ensures
            e is IO,
            e.message_view() == m@,
    {
        Error::IO { message: m }
    }

    pub fn not_impl(m: String) -> (e: Self)
        ensures
            e is NotImplemented,
            e.message_view() == m@,
    {
        Error::NotImplemented { message: m }
    }

    /// The text that describes the error: its message as `Debug` writes
    /// it, after a prefix that names the kind of error.
    pub fn to_string(&self) -> (s: String)
        ensures
            s@ == (match self {
                Error::General { .. } => debug_text(self.message_view()),
                Error::IO { .. } => "I/O Error: "@ + debug_text(self.message_view()),
                Error::NotImplemented { .. } => "Not implemented: "@ + debug_text(self.message_view()),
            }),
    {
        match self {
            Error::General { message } => debug_str(message.as_str()),
            Error::IO { message } => {
                let mut s = String::new();
                push_str(&mut s, "I/O Error: ");
                let d = debug_str(message.as_str());
                push_str(&mut s, d.as_str());
                s
            },
            Error::NotImplemented { message } => {
                let mut s = String::new();
                push_str(&mut s, "Not implemented: ");
                let d = debug_str(message.as_str());
                push_str(&mut s, d.as_str());
                s
            },
        }
    }
}

/// `what`, followed by `suffix`.
pub open spec fn not_valid_message(what: Seq<char>, suffix: Seq<char>) -> Seq<char> {
    what + suffix
}

/// The error for an unknown name: `what` followed by `suffix`.
pub fn not_valid(what: &str, suffix: &str) -> (e: Error)
    ensures
        e is General,
        e.message_view() == not_valid_message(what@, suffix@),
{
    let mut s = String::new();
    push_str(&mut s, what);
    push_str(&mut s, suffix);
    Error::new(s)
}

/// A general error with the message `m`.
pub fn error_msg(m: &str) -> (e: Error)
    ensures
        e is General,
        e.message_view() == m@,
{
    let mut s = String::new();
    push_str(&mut s, m);
    Error::new(s)
}

/// A not-implemented error with the message `m`.
pub fn not_impl_msg(m: &str) -> (e: Error)
    ensures
        e is NotImplemented,
        e.message_view() == m@,
{
    let mut s = String::new();
    push_str(&mut s, m);
    Error::not_impl(s)
}

} // verus!
