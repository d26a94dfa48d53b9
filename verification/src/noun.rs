use vstd::prelude::*;
use crate::error::{not_valid, not_valid_message, Error};
use crate::text::str_eq;

verus! {

/// What a motion or an edit acts on.
#[derive(Clone, Copy, Debug, PartialEq, Eq, Structural)]
pub enum Noun {
    Char,
    Word,
    Line,
}

impl Noun {
    /// The variant's name, as `Debug` writes it.
    pub open spec fn name_spec(self) -> Seq<char> {
        match self {
            Noun::Char => "Char"@,
            Noun::Word => "Word"@,
            Noun::Line => "Line"@,
        }
    }

    /// The variant's name, as `Debug` writes it.
    pub fn name(&self) -> (s: &'static str)
        ensures
            s@ == self.name_spec(),
    {
        match self {
            Noun::Char => "Char",
            Noun::Word => "Word",
            Noun::Line => "Line",
        }
    }

    /// Parses `char`, `word` or `line`.
    pub fn from_str(s: &str) -> (r: Result<Noun, Error>)
        ensures
            s@ == "char"@ ==> r == Ok::<Noun, Error>(Noun::Char),
            s@ == "word"@ ==> r == Ok::<Noun, Error>(Noun::Word),
            s@ == "line"@ ==> r == Ok::<Noun, Error>(Noun::Line),
            r is Err <==> !(s@ == "char"@ || s@ == "word"@ || s@ == "line"@),
            r matches Err(e) ==> e is General && e.message_view() == not_valid_message(
                s@,
                " is not a valid Noun"@,
            ),
    {
        proof {
            reveal_strlit("char");
            reveal_strlit("word");
            reveal_strlit("line");
            assert("char"@[0] != "word"@[0] && "char"@[0] != "line"@[0] && "word"@[0] != "line"@[0]);
        }
        if str_eq(s, "char") {
            Ok(Noun::Char)
        } else if str_eq(s, "word") {
            Ok(Noun::Word)
        } else if str_eq(s, "line") {
            Ok(Noun::Line)
        } else {
            Err(not_valid(s, " is not a valid Noun"))
        }
    }
}

} // verus!
