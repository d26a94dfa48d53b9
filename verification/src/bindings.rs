use vstd::prelude::*;
use crate::command::{command_dk, CommandBuilder};
use crate::dk::DK;
use crate::key::Key;
use crate::target::Target;
use crate::view::ViewKey;

verus! {

/// Key sequences and what each produces.
pub struct Bindings {
    map: Vec<(Vec<Key>, DK)>,
}

/// The key sequences bound in `m`.
pub open spec fn bound_keys(m: Seq<(Vec<Key>, DK)>) -> Seq<Seq<Key>> {
    m.map_values(|e: (Vec<Key>, DK)| e.0@)
}

impl Bindings {
    /// The bindings, in the order they were made.
    pub closed spec fn entries(&self) -> Seq<(Vec<Key>, DK)> {
        self.map@
    }

    /// No key sequence is bound twice.
    pub open spec fn wf(&self) -> bool {
        forall|i: int, j: int|
            0 <= i < j < self.entries().len() ==> self.entries()[i].0@ != self.entries()[j].0@
    }

    /// No bindings.
    pub fn new() -> (b: Self)
        ensures
            b.entries() == Seq::<(Vec<Key>, DK)>::empty(),
            b.wf(),
    {
        Bindings { map: Vec::new() }
    }

    /// Whether `keys` is bound.
    pub fn contains_key(&self, keys: &Vec<Key>) -> (b: bool)
        ensures
            b == bound_keys(self.entries()).contains(keys@),
    {
        let mut i: usize = 0;
        while i < self.map.len()
            invariant
                i <= self.map@.len(),
                forall|k: int| 0 <= k < i ==> self.map@[k].0@ != keys@,
            decreases self.map@.len() - i,
        {
            if vec_keys_eq(&self.map[i].0, keys) {
                assert(bound_keys(self.entries())[i as int] == keys@);
                return true;
            }
            i = i + 1;
        }
        proof {
            if bound_keys(self.entries()).contains(keys@) {
                let k = choose|k: int| 0 <= k < bound_keys(self.entries()).len() && bound_keys(self.entries())[k] == keys@;
                assert(self.map@[k].0@ == keys@);
            }
        }
        false
    }

    /// Binds `keys`, which must not be bound yet.
    pub fn insert(&mut self, keys: Vec<Key>, dk: DK)
        requires
            old(self).wf(),
            !bound_keys(old(self).entries()).contains(keys@),
        ensures
            final(self).wf(),
            final(self).entries() == old(self).entries().push((keys, dk)),
    {
        let ghost k = keys@;
        self.map.push((keys, dk));
        proof {
            assert forall|i: int, j: int| 0 <= i < j < self.entries().len() implies self.entries()[i].0@ != self.entries()[j].0@ by {
                if j == self.entries().len() - 1 {
                    assert(bound_keys(old(self).entries())[i] == self.entries()[i].0@);
                }
            }
        }
    }

    /// The bindings, as a list.
    pub fn get_map(self) -> (m: Vec<(Vec<Key>, DK)>)
        ensures
            m@ == self.entries(),
    {
        self.map
    }
}

/// Whether two key sequences are equal.
pub fn vec_keys_eq(a: &Vec<Key>, b: &Vec<Key>) -> (r: bool)
    ensures
        r == (a@ == b@),
{
    if a.len() != b.len() {
        return false;
    }
    let mut i: usize = 0;
    while i < a.len()
        invariant
            i <= a@.len(),
            a@.len() == b@.len(),
            forall|k: int| 0 <= k < i ==> a@[k] == b@[k],
        decreases a@.len() - i,
    {
        if a[i] != b[i] {
            return false;
        }
        i = i + 1;
    }
    assert(a@ =~= b@);
    true
}

/// Something that names a sequence of keys.
pub trait KeysLike: Sized {
    /// The keys that it names.
    spec fn keys_spec(self) -> Seq<Key>;

    fn parse_keys(self) -> (keys: Vec<Key>)
        ensures
            keys@ == self.keys_spec(),
    ;
}

/// The keys of the characters of `s`.
pub open spec fn str_keys_spec(s: Seq<char>) -> Seq<Key> {
    Seq::new(s.len(), |i: int| char_key(s[i]))
}

/// The key of a character.
pub open spec fn char_key(c: char) -> Key {
    Key::Utf8(c)
}

/// Each character of `s` as a key.
pub fn str_keys(s: &str) -> (r: Vec<Key>)
    ensures
        r@ == str_keys_spec(s@),
{
    let chars = crate::text::str_to_chars(s);
    let mut out: Vec<Key> = Vec::new();
    let mut i: usize = 0;
    while i < chars.len()
        invariant
            i <= chars@.len(),
            chars@ == s@,
            out@.len() == i,
            forall|k: int| 0 <= k < i ==> out@[k] == char_key(#[trigger] chars@[k]),
        decreases chars@.len() - i,
    {
        let c = chars[i];
        let k = Key::from_char(c);
        out.push(k);
        i = i + 1;
    }
    assert(out@ =~= str_keys_spec(s@));
    out
}

impl<'a> KeysLike for &'a str {
    /// Each character is a key.
    open spec fn keys_spec(self) -> Seq<Key> {
        str_keys_spec(self@)
    }

    fn parse_keys(self) -> (keys: Vec<Key>) {
        str_keys(self)
    }
}

impl KeysLike for Key {
    /// The key alone.
    open spec fn keys_spec(self) -> Seq<Key> {
        seq![self]
    }

    fn parse_keys(self) -> (keys: Vec<Key>) {
        let mut v: Vec<Key> = Vec::new();
        v.push(self);
        v
    }
}

/// Something that becomes a binding's result, given the view that the
/// bindings belong to.
pub trait IntoDKBinding: Sized {
    spec fn dk_spec(self, vk: ViewKey) -> DK;

    fn to_dk_with_default_vk(self, vk: ViewKey) -> (dk: DK)
        ensures
            dk == self.dk_spec(vk),
    ;
}

impl IntoDKBinding for DK {
    /// The result itself.
    open spec fn dk_spec(self, vk: ViewKey) -> DK {
        self
    }

    fn to_dk_with_default_vk(self, _vk: ViewKey) -> (dk: DK) {
        self
    }
}

impl IntoDKBinding for CommandBuilder {
    /// The command, sent to the view.
    open spec fn dk_spec(self, vk: ViewKey) -> DK {
        command_dk(self, Target::View(vk))
    }

    fn to_dk_with_default_vk(self, vk: ViewKey) -> (dk: DK) {
        self.at_view(vk)
    }
}

/// Builds the bindings of a view; commands go to that view.
pub struct BindingsBuilder {
    pub bindings: Bindings,
    pub default_vk: ViewKey,
}

impl BindingsBuilder {
    pub fn new(vk: ViewKey) -> (b: Self)
        ensures
            b.bindings.entries() == Seq::<(Vec<Key>, DK)>::empty(),
            b.bindings.wf(),
            b.default_vk == vk,
    {
        BindingsBuilder { bindings: Bindings::new(), default_vk: vk }
    }

    /// Binds the keys, which must not be bound yet.
    pub fn insert<K: KeysLike, D: IntoDKBinding>(&mut self, keys_like: K, dk_like: D)
        requires
            old(self).bindings.wf(),
            !bound_keys(old(self).bindings.entries()).contains(keys_like.keys_spec()),
        ensures
            final(self).bindings.wf(),
            final(self).default_vk == old(self).default_vk,
            final(self).bindings.entries().len() == old(self).bindings.entries().len() + 1,
            final(self).bindings.entries().drop_last() == old(self).bindings.entries(),
            final(self).bindings.entries().last().0@ == keys_like.keys_spec(),
            final(self).bindings.entries().last().1 == dk_like.dk_spec(old(self).default_vk),
    {
        let keys = keys_like.parse_keys();
        let dk = dk_like.to_dk_with_default_vk(self.default_vk);
        self.bindings.insert(keys, dk);
        assert(self.bindings.entries().drop_last() =~= old(self).bindings.entries());
    }

    pub fn get_bindings(self) -> (b: Bindings)
        ensures
            b == self.bindings,
    {
        self.bindings
    }
}

} // verus!
