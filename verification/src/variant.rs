use vstd::prelude::*;
use crate::target::Target;
use crate::types::Pos;
use crate::view::ViewKey;
use crate::key::{decimal, push_decimal_u64};
use crate::text::{debug_str, debug_text, push_str};

verus! {

/// An argument of a command or the value of a property.
#[derive(Clone, Debug, PartialEq, Eq)]
pub enum Variant {
    Ref(ViewKey, String),
    Int(i64),
    ViewKey(ViewKey),
    String(String),
    Bool(bool),
    Pos(Pos),
    Target(Target),
}

impl Variant {
    pub fn from_i64(b: i64) -> (v: Self)
        ensures
            v == Variant::Int(b),
    {
        Variant::Int(b)
    }

    pub fn from_bool(b: bool) -> (v: Self)
        ensures
            v == Variant::Bool(b),
    {
        Variant::Bool(b)
    }

    pub fn from_target(b: Target) -> (v: Self)
        ensures
            v == Variant::Target(b),
    {
        Variant::Target(b)
    }

    pub fn from_str(s: &str) -> (v: Self)
        ensures
            v matches Variant::String(t) && t@ == s@,
    {
        Variant::String(String::from_str(s))
    }

    pub fn from_view_key(vk: ViewKey) -> (v: Self)
        ensures
            v == Variant::ViewKey(vk),
    {
        Variant::ViewKey(vk)
    }
}

} // verus!

verus! {

/// How `Debug` writes a view key.
pub open spec fn view_key_debug(vk: ViewKey) -> Seq<char> {
    "ViewKey("@ + decimal(vk.0 as nat) + ")"@
}

/// The decimal text of `i`, with a minus sign when it is negative.
pub open spec fn int_text(i: i64) -> Seq<char> {
    if i < 0 {
        "-"@ + decimal((-i) as nat)
    } else {
        decimal(i as nat)
    }
}

/// How `Debug` writes a position.
pub open spec fn pos_debug(p: Pos) -> Seq<char> {
    "Pos { x: "@ + decimal(p.x as nat) + ", y: "@ + decimal(p.y as nat) + " }"@
}

/// How `Debug` writes a target.
pub open spec fn target_debug(t: Target) -> Seq<char> {
    match t {
        Target::View(vk) => "View("@ + view_key_debug(vk) + ")"@,
        Target::Named(n) => "Named("@ + debug_text(n@) + ")"@,
        Target::Previous => "Previous"@,
        Target::Focused => "Focused"@,
        Target::ViewMap => "ViewMap"@,
        Target::Root => "Root"@,
    }
}

/// How `Debug` writes a variant.
pub open spec fn variant_debug(v: Variant) -> Seq<char> {
    match v {
        Variant::Ref(vk, s) => "Ref("@ + view_key_debug(vk) + ", "@ + debug_text(s@) + ")"@,
        Variant::Int(i) => "Int("@ + int_text(i) + ")"@,
        Variant::ViewKey(vk) => "ViewKey("@ + view_key_debug(vk) + ")"@,
        Variant::String(s) => "String("@ + debug_text(s@) + ")"@,
        Variant::Bool(b) => "Bool("@ + (if b {
            "true"@
        } else {
            "false"@
        }) + ")"@,
        Variant::Pos(p) => "Pos("@ + pos_debug(p) + ")"@,
        Variant::Target(t) => "Target("@ + target_debug(t) + ")"@,
    }
}

/// The variants of `vs` as `Debug` writes each, separated by commas.
pub open spec fn variants_joined(vs: Seq<Variant>) -> Seq<char>
    decreases vs.len(),
{
    if vs.len() == 0 {
        Seq::empty()
    } else if vs.len() == 1 {
        variant_debug(vs[0])
    } else {
        variants_joined(vs.drop_last()) + ", "@ + variant_debug(vs.last())
    }
}

/// How `Debug` writes a list of variants.
pub open spec fn variants_debug(vs: Seq<Variant>) -> Seq<char> {
    "["@ + variants_joined(vs) + "]"@
}

/// Appends how `Debug` writes `vk`.
fn push_view_key_debug(s: &mut String, vk: ViewKey)
    ensures
        final(s)@ == old(s)@ + view_key_debug(vk),
{
    push_str(s, "ViewKey(");
    push_decimal_u64(s, vk.0 as u64);
    push_str(s, ")");
}

/// Appends how `Debug` writes `p`.
fn push_pos_debug(s: &mut String, p: Pos)
    ensures
        final(s)@ == old(s)@ + pos_debug(p),
{
    push_str(s, "Pos { x: ");
    push_decimal_u64(s, p.x as u64);
    push_str(s, ", y: ");
    push_decimal_u64(s, p.y as u64);
    push_str(s, " }");
}

/// Appends how `Debug` writes `t`.
fn push_target_debug(s: &mut String, t: &Target)
    ensures
        final(s)@ == old(s)@ + target_debug(*t),
{
    match t {
        Target::View(vk) => {
            push_str(s, "View(");
            push_view_key_debug(s, *vk);
            push_str(s, ")");
        },
        Target::Named(n) => {
            push_str(s, "Named(");
            let d = debug_str(n.as_str());
            push_str(s, d.as_str());
            push_str(s, ")");
        },
        Target::Previous => push_str(s, "Previous"),
        Target::Focused => push_str(s, "Focused"),
        Target::ViewMap => push_str(s, "ViewMap"),
        Target::Root => push_str(s, "Root"),
    }
}

/// Appends how `Debug` writes `v`.
pub fn push_variant_debug(s: &mut String, v: &Variant)
    ensures
        final(s)@ == old(s)@ + variant_debug(*v),
{
    match v {
        Variant::Ref(vk, t) => {
            push_str(s, "Ref(");
            push_view_key_debug(s, *vk);
            push_str(s, ", ");
            let d = debug_str(t.as_str());
            push_str(s, d.as_str());
            push_str(s, ")");
        },
        Variant::Int(i) => {
            push_str(s, "Int(");
            if *i < 0 {
                push_str(s, "-");
                let m: u64 = if *i == i64::MIN {
                    9223372036854775808u64
                } else {
                    (-*i) as u64
                };
                push_decimal_u64(s, m);
            } else {
                push_decimal_u64(s, *i as u64);
            }
            push_str(s, ")");
        },
        Variant::ViewKey(vk) => {
            push_str(s, "ViewKey(");
            push_view_key_debug(s, *vk);
            push_str(s, ")");
        },
        Variant::String(t) => {
            push_str(s, "String(");
            let d = debug_str(t.as_str());
            push_str(s, d.as_str());
            push_str(s, ")");
        },
        Variant::Bool(b) => {
            push_str(s, "Bool(");
            push_str(s, if *b { "true" } else { "false" });
            push_str(s, ")");
        },
        Variant::Pos(p) => {
            push_str(s, "Pos(");
            push_pos_debug(s, *p);
            push_str(s, ")");
        },
        Variant::Target(t) => {
            push_str(s, "Target(");
            push_target_debug(s, t);
            push_str(s, ")");
        },
    }
}

/// Appends how `Debug` writes the list `vs`.
pub fn push_variants_debug(s: &mut String, vs: &Vec<Variant>)
    ensures
        final(s)@ == old(s)@ + variants_debug(vs@),
{
    let ghost s0 = s@;
    push_str(s, "[");
    let mut i: usize = 0;
    while i < vs.len()
        invariant
            i <= vs@.len(),
            s@ == s0 + "["@ + variants_joined(vs@.take(i as int)),
        decreases vs@.len() - i,
    {
        let ghost before = s@;
        if i > 0 {
            push_str(s, ", ");
        }
        push_variant_debug(s, &vs[i]);
        proof {
            let t = vs@.take(i + 1);
            assert(t.drop_last() =~= vs@.take(i as int));
            assert(t.last() == vs@[i as int]);
            if i == 0 {
                assert(variants_joined(vs@.take(0)) =~= Seq::<char>::empty());
            }
        }
        i = i + 1;
    }
    assert(vs@.take(i as int) =~= vs@);
    push_str(s, "]");
}

} // verus!
