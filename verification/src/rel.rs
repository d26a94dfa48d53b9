use vstd::prelude::*;
use crate::error::{not_valid, not_valid_message, Error};
use crate::text::str_eq;

verus! {

/// Where a motion goes, relative to the cursor.
#[derive(Clone, Copy, Debug, PartialEq, Eq, Structural)]
pub enum Rel {
    Prior,
    Begin,
    End,
    Next,
}

impl Rel {
    /// The variant's name, as `Debug` writes it.
    pub open spec fn name_spec(self) -> Seq<char> {
        match self {
            Rel::Prior => "Prior"@,
            Rel::Begin => "Begin"@,
            Rel::End => "End"@,
            Rel::Next => "Next"@,
        }
    }

    /// The variant's name, as `Debug` writes it.
    pub fn name(&self) -> (s: &'static str)
        ensures
            s@ == self.name_spec(),
    {
        match self {
            Rel::Prior => "Prior",
            Rel::Begin => "Begin",
            Rel::End => "End",
            Rel::Next => "Next",
        }
    }

    /// Parses `prior`, `begin`, `end` or `next`.
    pub fn from_str(s: &str) -> (r: Result<Rel, Error>)
        ensures
            s@ == "prior"@ ==> r == Ok::<Rel, Error>(Rel::Prior),
            s@ == "begin"@ ==> r == Ok::<Rel, Error>(Rel::Begin),
            s@ == "end"@ ==> r == Ok::<Rel, Error>(Rel::End),
            s@ == "next"@ ==> r == Ok::<Rel, Error>(Rel::Next),
            r is Err <==> !(s@ == "prior"@ || s@ == "begin"@ || s@ == "end"@ || s@ == "next"@),
            r matches Err(e) ==> e is General && e.message_view() == not_valid_message(
                s@,
                " is not a valid Rel"@,
            ),
    {
        proof {
            reveal_strlit("prior");
            reveal_strlit("begin");
            reveal_strlit("end");
            reveal_strlit("next");
            assert("prior"@[0] != "begin"@[0] && "prior"@[0] != "end"@[0] && "prior"@[0]
                != "next"@[0] && "begin"@[0] != "end"@[0] && "begin"@[0] != "next"@[0]
                && "end"@[0] != "next"@[0]);
        }
        if str_eq(s, "prior") {
            Ok(Rel::Prior)
        } else if str_eq(s, "begin") {
            Ok(Rel::Begin)
        } else if str_eq(s, "end") {
            Ok(Rel::End)
        } else if str_eq(s, "next") {
            Ok(Rel::Next)
        } else {
            Err(not_valid(s, " is not a valid Rel"))
        }
    }
}

} // verus!
