use vstd::prelude::*;
use crate::error::{not_valid, not_valid_message, Error};
use crate::text::{push_str, str_eq};

verus! {

/// The text-object modifier: the inner object, or the object with its
/// surroundings.
#[derive(Clone, Copy, Debug, PartialEq, Eq, Structural)]
pub enum ObjMod {
    Inner,
    A,
}

/// The operators of normal mode.
#[derive(Clone, Copy, Debug, PartialEq, Eq, Structural)]
pub enum Op {
    Change,
    Delete,
    Yank,
}

/// The kinds of visual selection.
#[derive(Clone, Copy, Debug, PartialEq, Eq, Structural)]
pub enum VisualMode {
    Char,
    Line,
    Block,
}

/// The editing modes of a document view.
#[derive(Clone, Copy, Debug, PartialEq, Eq, Structural)]
pub enum Mode {
    Insert,
    Visual(VisualMode),
    Normal,
    NormalWithOp(Op),
    NormalWithOpObjMode(Op, ObjMod),
}

impl Op {
    /// The key that names the operator.
    pub fn as_str(&self) -> (s: &'static str)
        ensures
            s@ == match self {
                Op::Change => "c"@,
                Op::Delete => "d"@,
                Op::Yank => "y"@,
            },
    {
        match self {
            Op::Change => "c",
            Op::Delete => "d",
            Op::Yank => "y",
        }
    }

    /// Parses `change`, `delete` or `yank`.
    pub fn from_str(s: &str) -> (r: Result<Op, Error>)
        ensures
            s@ == "change"@ ==> r == Ok::<Op, Error>(Op::Change),
            s@ == "delete"@ ==> r == Ok::<Op, Error>(Op::Delete),
            s@ == "yank"@ ==> r == Ok::<Op, Error>(Op::Yank),
            r is Err <==> !(s@ == "change"@ || s@ == "delete"@ || s@ == "yank"@),
            r matches Err(e) ==> e is General && e.message_view() == not_valid_message(
                s@,
                " is not a valid Op"@,
            ),
    {
        proof {
            reveal_strlit("change");
            reveal_strlit("delete");
            reveal_strlit("yank");
            assert("change"@[0] != "delete"@[0] && "change"@[0] != "yank"@[0] && "delete"@[0]
                != "yank"@[0]);
        }
        if str_eq(s, "change") {
            Ok(Op::Change)
        } else if str_eq(s, "delete") {
            Ok(Op::Delete)
        } else if str_eq(s, "yank") {
            Ok(Op::Yank)
        } else {
            Err(not_valid(s, " is not a valid Op"))
        }
    }
}

impl VisualMode {
    /// Parses `char`, `line` or `block`.
    pub fn from_str(s: &str) -> (r: Result<VisualMode, Error>)
        ensures
            s@ == "char"@ ==> r == Ok::<VisualMode, Error>(VisualMode::Char),
            s@ == "line"@ ==> r == Ok::<VisualMode, Error>(VisualMode::Line),
            s@ == "block"@ ==> r == Ok::<VisualMode, Error>(VisualMode::Block),
            r is Err <==> !(s@ == "char"@ || s@ == "line"@ || s@ == "block"@),
            r matches Err(e) ==> e is General && e.message_view() == not_valid_message(
                s@,
                " is not a valid visual Mode"@,
            ),
    {
        proof {
            reveal_strlit("char");
            reveal_strlit("line");
            reveal_strlit("block");
            assert("char"@[0] != "line"@[0] && "char"@[0] != "block"@[0] && "line"@[0]
                != "block"@[0]);
        }
        if str_eq(s, "char") {
            Ok(VisualMode::Char)
        } else if str_eq(s, "line") {
            Ok(VisualMode::Line)
        } else if str_eq(s, "block") {
            Ok(VisualMode::Block)
        } else {
            Err(not_valid(s, " is not a valid visual Mode"))
        }
    }
}

impl Mode {
    /// Parses `insert`, `normal`, `visual`, `visual-line` or `visual-block`.
    pub fn from_str(s: &str) -> (r: Result<Mode, Error>)
        ensures
            s@ == "insert"@ ==> r == Ok::<Mode, Error>(Mode::Insert),
            s@ == "normal"@ ==> r == Ok::<Mode, Error>(Mode::Normal),
            s@ == "visual"@ ==> r == Ok::<Mode, Error>(Mode::Visual(VisualMode::Char)),
            s@ == "visual-line"@ ==> r == Ok::<Mode, Error>(Mode::Visual(VisualMode::Line)),
            s@ == "visual-block"@ ==> r == Ok::<Mode, Error>(Mode::Visual(VisualMode::Block)),
            r is Err <==> !(s@ == "insert"@ || s@ == "normal"@ || s@ == "visual"@ || s@
                == "visual-line"@ || s@ == "visual-block"@),
            r matches Err(e) ==> e is General && e.message_view() == not_valid_message(
                s@,
                " is not a valid editing Mode"@,
            ),
    {
        proof {
            reveal_strlit("insert");
            reveal_strlit("normal");
            reveal_strlit("visual");
            reveal_strlit("visual-line");
            reveal_strlit("visual-block");
            assert("insert"@[0] != "normal"@[0] && "insert"@[0] != "visual"@[0] && "normal"@[0]
                != "visual"@[0]);
            assert("visual"@.len() != "visual-line"@.len() && "visual"@.len()
                != "visual-block"@.len() && "visual-line"@[7] != "visual-block"@[7]);
            assert("insert"@[0] != "visual-line"@[0] && "insert"@[0] != "visual-block"@[0]
                && "normal"@[0] != "visual-line"@[0] && "normal"@[0] != "visual-block"@[0]);
        }
        if str_eq(s, "insert") {
            Ok(Mode::Insert)
        } else if str_eq(s, "normal") {
            Ok(Mode::Normal)
        } else if str_eq(s, "visual") {
            Ok(Mode::Visual(VisualMode::Char))
        } else if str_eq(s, "visual-line") {
            Ok(Mode::Visual(VisualMode::Line))
        } else if str_eq(s, "visual-block") {
            Ok(Mode::Visual(VisualMode::Block))
        } else {
            Err(not_valid(s, " is not a valid editing Mode"))
        }
    }
}


/// How `Debug` writes an operator.
pub open spec fn op_debug(op: Op) -> Seq<char> {
    match op {
        Op::Change => "Change"@,
        Op::Delete => "Delete"@,
        Op::Yank => "Yank"@,
    }
}

/// How `Debug` writes a visual mode.
pub open spec fn visual_debug(v: VisualMode) -> Seq<char> {
    match v {
        VisualMode::Char => "Char"@,
        VisualMode::Line => "Line"@,
        VisualMode::Block => "Block"@,
    }
}

/// How `Debug` writes a text-object modifier.
pub open spec fn obj_mod_debug(o: ObjMod) -> Seq<char> {
    match o {
        ObjMod::Inner => "Inner"@,
        ObjMod::A => "A"@,
    }
}

/// How `Debug` writes a mode.
pub open spec fn mode_debug(m: Mode) -> Seq<char> {
    match m {
        Mode::Insert => "Insert"@,
        Mode::Visual(v) => "Visual("@ + visual_debug(v) + ")"@,
        Mode::Normal => "Normal"@,
        Mode::NormalWithOp(op) => "NormalWithOp("@ + op_debug(op) + ")"@,
        Mode::NormalWithOpObjMode(op, o) => "NormalWithOpObjMode("@ + op_debug(op) + ", "@ + obj_mod_debug(o) + ")"@,
    }
}

/// Appends how `Debug` writes `m` to `s`.
pub fn push_mode_debug(s: &mut String, m: Mode)
    ensures
        final(s)@ == old(s)@ + mode_debug(m),
{
    match m {
        Mode::Insert => push_str(s, "Insert"),
        Mode::Visual(v) => {
            push_str(s, "Visual(");
            push_str(s, match v {
                VisualMode::Char => "Char",
                VisualMode::Line => "Line",
                VisualMode::Block => "Block",
            });
            push_str(s, ")");
        },
        Mode::Normal => push_str(s, "Normal"),
        Mode::NormalWithOp(op) => {
            push_str(s, "NormalWithOp(");
            push_str(s, op_name(op));
            push_str(s, ")");
        },
        Mode::NormalWithOpObjMode(op, o) => {
            push_str(s, "NormalWithOpObjMode(");
            push_str(s, op_name(op));
            push_str(s, ", ");
            push_str(s, match o {
                ObjMod::Inner => "Inner",
                ObjMod::A => "A",
            });
            push_str(s, ")");
        },
    }
    assert(s@ =~= old(s)@ + mode_debug(m));
}

/// How `Debug` writes an operator.
fn op_name(op: Op) -> (s: &'static str)
    ensures
        s@ == op_debug(op),
{
    match op {
        Op::Change => "Change",
        Op::Delete => "Delete",
        Op::Yank => "Yank",
    }
}

} // verus!
