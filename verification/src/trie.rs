use vstd::prelude::*;
use crate::bindings::Bindings;
use crate::dk::DK;
use crate::key::Key;

verus! {

/// A node of the key-binding trie: what the keys leading here produce, and
/// the nodes for each next key.
pub struct TrieNode {
    pub dk: Option<DK>,
    pub children: Vec<(Key, TrieNode)>,
}

/// The index of the child for key `k`, if any.
pub open spec fn child_index(cs: Seq<(Key, TrieNode)>, k: Key) -> int {
    if exists|j: int| 0 <= j < cs.len() && cs[j].0 == k {
        choose|j: int| 0 <= j < cs.len() && cs[j].0 == k
    } else {
        -1
    }
}

/// No key leads to two children.
pub open spec fn unique_keys(cs: Seq<(Key, TrieNode)>) -> bool {
    forall|i: int, j: int| 0 <= i < j < cs.len() ==> cs[i].0 != cs[j].0
}

/// The keys of the children, in order.
pub open spec fn child_keys(cs: Seq<(Key, TrieNode)>) -> Seq<Key> {
    Seq::new(cs.len(), |i: int| cs[i].0)
}

impl TrieNode {
    /// Every node has at most one child per key.
    pub open spec fn wf(&self) -> bool
        decreases self,
    {
        &&& unique_keys(self.children@)
        &&& forall|j: int|
            0 <= j < self.children@.len() ==> (#[trigger] self.children@[j]).1.wf()
    }

    /// Every node below this one produces something or leads further: no
    /// branch ends without a result.
    pub open spec fn live(&self) -> bool
        decreases self,
    {
        forall|j: int|
            0 <= j < self.children@.len() ==> {
                &&& ((#[trigger] self.children@[j]).1.dk is Some || self.children@[j].1.children@.len() > 0)
                &&& self.children@[j].1.live()
            }
    }

    /// What the key sequence `path` produces in this trie.
    pub open spec fn lookup(&self, path: Seq<Key>) -> Option<DK>
        decreases path.len(),
    {
        if path.len() == 0 {
            self.dk
        } else {
            let j = child_index(self.children@, path[0]);
            if j < 0 {
                None
            } else {
                self.children@[j].1.lookup(path.drop_first())
            }
        }
    }
}


/// `j` is the child for `k` when the keys are unique.
pub proof fn lemma_child_index(cs: Seq<(Key, TrieNode)>, k: Key, j: int)
    requires
        unique_keys(cs),
        0 <= j < cs.len(),
        cs[j].0 == k,
    ensures
        child_index(cs, k) == j,
{
    let c = child_index(cs, k);
    assert(0 <= c < cs.len() && cs[c].0 == k);
    if c < j {
        assert(cs[c].0 != cs[j].0);
    } else if c > j {
        assert(cs[j].0 != cs[c].0);
    }
}

/// A key sequence is `keys[i..]` when it starts with `keys[i]` and goes on
/// with `keys[i + 1..]`.
pub proof fn lemma_skip_cons(p: Seq<Key>, keys: Seq<Key>, i: int)
    requires
        0 <= i < keys.len(),
        p.len() > 0,
        p[0] == keys[i],
    ensures
        (p == keys.skip(i)) == (p.drop_first() == keys.skip(i + 1)),
{
    assert(keys.skip(i).drop_first() =~= keys.skip(i + 1));
    if p.drop_first() == keys.skip(i + 1) {
        assert forall|m: int| 0 <= m < p.len() implies p[m] == keys.skip(i)[m] by {
            if m > 0 {
                assert(p[m] == p.drop_first()[m - 1]);
            }
        }
        assert(p =~= keys.skip(i));
    }
}

/// A node without children or result produces nothing for any keys.
pub proof fn lemma_empty_lookup(n: TrieNode, p: Seq<Key>)
    requires
        n.dk is None,
        n.children@.len() == 0,
    ensures
        n.lookup(p) is None,
{
}

/// What a binding list makes of `p`: its binding if there is one, else
/// `default`.
pub open spec fn bindings_lookup(es: Seq<(Vec<Key>, DK)>, p: Seq<Key>, default: Option<DK>) -> Option<DK>
    decreases es.len(),
{
    if es.len() == 0 {
        default
    } else if es.last().0@ == p {
        Some(es.last().1)
    } else {
        bindings_lookup(es.drop_last(), p, default)
    }
}

/// What a list of binding lists makes of `p`: later lists override earlier
/// ones.
pub open spec fn layered_lookup(ls: Seq<Seq<(Vec<Key>, DK)>>, p: Seq<Key>) -> Option<DK>
    decreases ls.len(),
{
    if ls.len() == 0 {
        None
    } else {
        bindings_lookup(ls.last(), p, layered_lookup(ls.drop_last(), p))
    }
}

/// The outcome of following a prefix of keys: the node reached, and
/// whether a `NoKey` stopped the walk; None when a key leads nowhere.
pub open spec fn walk(n: TrieNode, prefix: Seq<Key>) -> Option<(TrieNode, bool)>
    decreases prefix.len(),
{
    if prefix.len() == 0 {
        Some((n, false))
    } else if prefix[0] == Key::NoKey {
        Some((n, true))
    } else {
        let j = child_index(n.children@, prefix[0]);
        if j < 0 {
            None
        } else {
            walk(n.children@[j].1, prefix.drop_first())
        }
    }
}

/// What a prefix of keys matches: a result, a choice of next keys, or
/// nothing.
pub enum PrefixMatch<'a> {
    DK(&'a DK),
    Choices(Vec<Key>),
    NoMatch,
}

/// The kinds of match: nothing, a result, or choices.
pub open spec fn match_spec(n: TrieNode, prefix: Seq<Key>) -> (int, Option<DK>, Seq<Key>) {
    match walk(n, prefix) {
        None => (0, None, Seq::empty()),
        Some((cur, stopped)) => if stopped || cur.children@.len() == 0 {
            match cur.dk {
                Some(d) => (1, Some(d), Seq::empty()),
                None => (0, None, Seq::empty()),
            }
        } else {
            (2, None, child_keys(cur.children@))
        },
    }
}

/// A prefix match as a triple, as `match_spec` gives it.
pub open spec fn match_view(m: PrefixMatch) -> (int, Option<DK>, Seq<Key>) {
    match m {
        PrefixMatch::DK(d) => (1, Some(*d), Seq::empty()),
        PrefixMatch::Choices(ks) => (2, None, ks@),
        PrefixMatch::NoMatch => (0, None, Seq::empty()),
    }
}

/// The longest prefix of keys that binds something, and what remains.
pub enum Mapping<'a, 'b> {
    Bound { dk: &'a DK, remaining: &'b [Key] },
    Choices(Vec<Key>),
    NoMapping,
}

/// The largest `j < n` such that the first `j + 1` keys match a result.
pub open spec fn longest_match(t: TrieNode, input: Seq<Key>, n: int) -> Option<int>
    decreases n,
{
    if n <= 0 {
        None
    } else if match_spec(t, input.take(n)).0 == 1 {
        Some(n - 1)
    } else {
        longest_match(t, input, n - 1)
    }
}

/// A live node that produces something or leads further produces
/// something for some keys.
pub proof fn lemma_live_has_result(n: TrieNode)
    requires
        n.wf(),
        n.live(),
        n.dk is Some || n.children@.len() > 0,
    ensures
        exists|q: Seq<Key>| #[trigger] n.lookup(q) is Some,
    decreases n,
{
    if n.dk is Some {
        assert(n.lookup(Seq::<Key>::empty()) is Some);
    } else {
        let c = n.children@[0];
        assert(c.1.wf());
        assert(c.1.live());
        lemma_live_has_result(c.1);
        let q = choose|q: Seq<Key>| #[trigger] c.1.lookup(q) is Some;
        let r = seq![c.0] + q;
        lemma_child_index(n.children@, c.0, 0);
        assert(r.drop_first() =~= q);
        assert(n.lookup(r) is Some);
    }
}

/// In a live trie, a key has a child exactly where some keys starting with
/// it produce something.
pub proof fn lemma_child_iff_result(n: TrieNode, k: Key)
    requires
        n.wf(),
        n.live(),
    ensures
        child_index(n.children@, k) >= 0 <==> exists|q: Seq<Key>| #[trigger] n.lookup(seq![k] + q) is Some,
{
    let j = child_index(n.children@, k);
    if j >= 0 {
        let c = n.children@[j];
        assert(c.1.wf());
        lemma_live_has_result(c.1);
        let q = choose|q: Seq<Key>| #[trigger] c.1.lookup(q) is Some;
        let r = seq![k] + q;
        assert(r.drop_first() =~= q);
        assert(n.lookup(r) is Some);
    } else {
        assert forall|q: Seq<Key>| !(#[trigger] n.lookup(seq![k] + q) is Some) by {
            assert((seq![k] + q)[0] == k);
        }
    }
}

/// A key is among the keys of the children exactly where it has a child.
proof fn lemma_child_keys_contains(cs: Seq<(Key, TrieNode)>, k: Key)
    ensures
        child_keys(cs).contains(k) <==> child_index(cs, k) >= 0,
{
    if child_keys(cs).contains(k) {
        let i = choose|i: int| 0 <= i < child_keys(cs).len() && child_keys(cs)[i] == k;
        assert(cs[i].0 == k);
    }
    if child_index(cs, k) >= 0 {
        let j = child_index(cs, k);
        assert(child_keys(cs)[j] == k);
    }
}

/// Two live tries that produce the same for all keys have a child for the
/// same keys.
proof fn lemma_same_children(a: TrieNode, b: TrieNode, k: Key)
    requires
        a.wf(),
        a.live(),
        b.wf(),
        b.live(),
        forall|q: Seq<Key>| #[trigger] a.lookup(q) == b.lookup(q),
    ensures
        child_index(a.children@, k) >= 0 <==> child_index(b.children@, k) >= 0,
{
    lemma_child_iff_result(a, k);
    lemma_child_iff_result(b, k);
    if child_index(a.children@, k) >= 0 {
        let q = choose|q: Seq<Key>| #[trigger] a.lookup(seq![k] + q) is Some;
        assert(b.lookup(seq![k] + q) is Some);
    }
    if child_index(b.children@, k) >= 0 {
        let q = choose|q: Seq<Key>| #[trigger] b.lookup(seq![k] + q) is Some;
        assert(a.lookup(seq![k] + q) == b.lookup(seq![k] + q));
    }
}

/// Two live tries that produce the same for all keys match every prefix
/// alike: the same kind of match, the same result, and the same next keys
/// (in the order that each was built).
pub proof fn lemma_same_lookups_same_match(a: TrieNode, b: TrieNode, p: Seq<Key>)
    requires
        a.wf(),
        a.live(),
        b.wf(),
        b.live(),
        forall|q: Seq<Key>| #[trigger] a.lookup(q) == b.lookup(q),
    ensures
        match_spec(a, p).0 == match_spec(b, p).0,
        match_spec(a, p).1 == match_spec(b, p).1,
        match_spec(a, p).2.to_set() == match_spec(b, p).2.to_set(),
    decreases p.len(),
{
    assert(a.lookup(Seq::<Key>::empty()) == b.lookup(Seq::<Key>::empty()));
    if p.len() == 0 || p[0] == Key::NoKey {
        if a.children@.len() > 0 {
            let k = a.children@[0].0;
            lemma_child_index(a.children@, k, 0);
            lemma_same_children(a, b, k);
        }
        if b.children@.len() > 0 {
            let k = b.children@[0].0;
            lemma_child_index(b.children@, k, 0);
            lemma_same_children(a, b, k);
        }
        assert forall|k: Key| child_keys(a.children@).to_set().contains(k) == child_keys(b.children@).to_set().contains(k) by {
            lemma_child_keys_contains(a.children@, k);
            lemma_child_keys_contains(b.children@, k);
            lemma_same_children(a, b, k);
        }
        assert(child_keys(a.children@).to_set() =~= child_keys(b.children@).to_set());
    } else {
        let k = p[0];
        lemma_same_children(a, b, k);
        let ja = child_index(a.children@, k);
        let jb = child_index(b.children@, k);
        if ja >= 0 {
            let ca = a.children@[ja].1;
            let cb = b.children@[jb].1;
            assert(ca.wf() && ca.live());
            assert(cb.wf() && cb.live());
            assert forall|q: Seq<Key>| #[trigger] ca.lookup(q) == cb.lookup(q) by {
                let r = seq![k] + q;
                assert(r.drop_first() =~= q);
                assert(a.lookup(r) == b.lookup(r));
            }
            lemma_same_lookups_same_match(ca, cb, p.drop_first());
        }
    }
}

/// Two live tries that produce the same for all keys find the same longest
/// match among the first `n` keys of any input.
pub proof fn lemma_same_lookups_same_longest(a: TrieNode, b: TrieNode, input: Seq<Key>, n: int)
    requires
        a.wf(),
        a.live(),
        b.wf(),
        b.live(),
        forall|q: Seq<Key>| #[trigger] a.lookup(q) == b.lookup(q),
    ensures
        longest_match(a, input, n) == longest_match(b, input, n),
    decreases n,
{
    if n > 0 {
        lemma_same_lookups_same_match(a, b, input.take(n));
        lemma_same_lookups_same_longest(a, b, input, n - 1);
    }
}

impl TrieNode {
    /// An empty trie.
    pub fn new() -> (t: Self)
        ensures
            t.dk is None,
            t.children@.len() == 0,
            t.wf(),
            t.live(),
            forall|p: Seq<Key>| (#[trigger] t.lookup(p)) is None,
    {
        TrieNode { dk: None, children: Vec::new() }
    }

    /// The child for key `k`, if any.
    fn find_child(&self, k: Key) -> (r: Option<usize>)
        requires
            self.wf(),
        ensures
            r matches Some(j) ==> j < self.children@.len() && self.children@[j as int].0 == k
                && child_index(self.children@, k) == j,
            r is None ==> child_index(self.children@, k) == -1,
    {
        let mut i: usize = 0;
        while i < self.children.len()
            invariant
                i <= self.children@.len(),
                self.wf(),
                forall|j: int| 0 <= j < i ==> self.children@[j].0 != k,
            decreases self.children@.len() - i,
        {
            if self.children[i].0 == k {
                proof {
                    lemma_child_index(self.children@, k, i as int);
                }
                return Some(i);
            }
            i = i + 1;
        }
        None
    }

    /// Binds the keys `keys[i..]` to `dk`.
    fn insert_from(&mut self, dk: DK, keys: &[Key], i: usize)
        requires
            old(self).wf(),
            old(self).live(),
            i <= keys@.len(),
        ensures
            final(self).wf(),
            final(self).live(),
            final(self).dk is Some || final(self).children@.len() > 0,
            forall|p: Seq<Key>|
                #[trigger] final(self).lookup(p) == if p == keys@.skip(i as int) {
                    Some(dk)
                } else {
                    old(self).lookup(p)
                },
        decreases keys@.len() - i,
    {
        if i == keys.len() {
            self.dk = Some(dk);
            proof {
                assert forall|p: Seq<Key>|
                    #[trigger] self.lookup(p) == if p == keys@.skip(i as int) {
                        Some(dk)
                    } else {
                        old(self).lookup(p)
                    } by {
                    if p.len() == 0 {
                        assert(p =~= keys@.skip(i as int));
                    } else {
                        assert(p != keys@.skip(i as int));
                    }
                }
            }
            return;
        }
        let k = keys[i];
        let ghost old_cs = self.children@;
        match self.find_child(k) {
            Some(j) => {
                let (ck, mut child) = self.children.remove(j);
                let ghost old_child = child;
                child.insert_from(dk, keys, i + 1);
                self.children.insert(j, (ck, child));
                proof {
                    let cs = self.children@;
                    assert(cs =~= old_cs.update(j as int, (ck, child)));
                    assert(unique_keys(cs)) by {
                        assert forall|a: int, b: int| 0 <= a < b < cs.len() implies cs[a].0 != cs[b].0 by {
                            assert(old_cs[a].0 != old_cs[b].0);
                        }
                    }
                    assert forall|a: int| 0 <= a < cs.len() implies (#[trigger] cs[a]).1.wf() by {
                        if a != j {
                            assert(old_cs[a].1.wf());
                        }
                    }
                    assert forall|a: int| 0 <= a < cs.len() implies ((#[trigger] cs[a]).1.dk is Some
                        || cs[a].1.children@.len() > 0) && cs[a].1.live() by {
                        if a != j {
                            assert(old_cs[a] == cs[a]);
                        }
                    }
                    assert forall|p: Seq<Key>|
                        #[trigger] self.lookup(p) == if p == keys@.skip(i as int) {
                            Some(dk)
                        } else {
                            old(self).lookup(p)
                        } by {
                        if p.len() == 0 {
                            assert(p != keys@.skip(i as int));
                        } else {
                            let ci = child_index(old_cs, p[0]);
                            if p[0] == k {
                                lemma_child_index(cs, k, j as int);
                                lemma_skip_cons(p, keys@, i as int);
                                lemma_child_index(old_cs, k, j as int);
                                assert(self.lookup(p) == child.lookup(p.drop_first()));
                                assert(old(self).lookup(p) == old_child.lookup(p.drop_first()));
                            } else {
                                assert(p != keys@.skip(i as int));
                                if ci >= 0 {
                                    lemma_child_index(cs, p[0], ci);
                                } else {
                                    if exists|b: int| 0 <= b < cs.len() && cs[b].0 == p[0] {
                                        let b = choose|b: int| 0 <= b < cs.len() && cs[b].0 == p[0];
                                        assert(old_cs[b].0 == p[0]);
                                    }
                                }
                            }
                        }
                    }
                }
            },
            None => {
                let mut child = TrieNode::new();
                let ghost old_child = child;
                child.insert_from(dk, keys, i + 1);
                self.children.push((k, child));
                proof {
                    let cs = self.children@;
                    let n = old_cs.len() as int;
                    assert(cs =~= old_cs.push((k, child)));
                    assert(unique_keys(cs)) by {
                        assert forall|a: int, b: int| 0 <= a < b < cs.len() implies cs[a].0 != cs[b].0 by {
                            if b == n {
                                if cs[a].0 == k {
                                    assert(old_cs[a].0 == k);
                                }
                            } else {
                                assert(old_cs[a].0 != old_cs[b].0);
                            }
                        }
                    }
                    assert forall|a: int| 0 <= a < cs.len() implies (#[trigger] cs[a]).1.wf() by {
                        if a != n {
                            assert(old_cs[a].1.wf());
                        }
                    }
                    assert forall|a: int| 0 <= a < cs.len() implies ((#[trigger] cs[a]).1.dk is Some
                        || cs[a].1.children@.len() > 0) && cs[a].1.live() by {
                        if a != n {
                            assert(old_cs[a] == cs[a]);
                        }
                    }
                    assert forall|p: Seq<Key>|
                        #[trigger] self.lookup(p) == if p == keys@.skip(i as int) {
                            Some(dk)
                        } else {
                            old(self).lookup(p)
                        } by {
                        if p.len() == 0 {
                            assert(p != keys@.skip(i as int));
                        } else {
                            let ci = child_index(old_cs, p[0]);
                            if p[0] == k {
                                lemma_child_index(cs, k, n);
                                lemma_skip_cons(p, keys@, i as int);
                                assert(self.lookup(p) == child.lookup(p.drop_first()));
                                assert(old(self).lookup(p) is None);
                                lemma_empty_lookup(old_child, p.drop_first());
                            } else {
                                assert(p != keys@.skip(i as int));
                                if ci >= 0 {
                                    lemma_child_index(cs, p[0], ci);
                                } else {
                                    if exists|b: int| 0 <= b < cs.len() && cs[b].0 == p[0] {
                                        let b = choose|b: int| 0 <= b < cs.len() && cs[b].0 == p[0];
                                        assert(old_cs[b].0 == p[0]);
                                    }
                                }
                            }
                        }
                    }
                }
            },
        }
    }

    /// Binds `keys` to `dk`.
    fn insert(&mut self, dk: DK, keys: &[Key])
        requires
            old(self).wf(),
            old(self).live(),
        ensures
            final(self).wf(),
            final(self).live(),
            forall|p: Seq<Key>|
                #[trigger] final(self).lookup(p) == if p == keys@ {
                    Some(dk)
                } else {
                    old(self).lookup(p)
                },
    {
        assert(keys@.skip(0) =~= keys@);
        self.insert_from(dk, keys, 0);
    }
}


/// The keys of the children, in order.
fn children_keys(cs: &Vec<(Key, TrieNode)>) -> (ks: Vec<Key>)
    ensures
        ks@ == child_keys(cs@),
{
    let mut ks: Vec<Key> = Vec::new();
    let mut i: usize = 0;
    while i < cs.len()
        invariant
            i <= cs@.len(),
            ks@.len() == i,
            forall|k: int| 0 <= k < i ==> ks@[k] == cs@[k].0,
        decreases cs@.len() - i,
    {
        let k = cs[i].0;
        ks.push(k);
        i = i + 1;
    }
    assert(ks@ =~= child_keys(cs@));
    ks
}

/// The match of a node's result: the result if there is one, else nothing.
fn prefix_from_dk<'a>(dk: &'a Option<DK>) -> (m: PrefixMatch<'a>)
    ensures
        match_view(m) == match *dk {
            Some(d) => (1int, Some(d), Seq::<Key>::empty()),
            None => (0int, None::<DK>, Seq::<Key>::empty()),
        },
{
    match dk {
        Some(d) => PrefixMatch::DK(d),
        None => PrefixMatch::NoMatch,
    }
}

impl TrieNode {
    /// Follows `prefix` from this node: a `NoKey` stops the walk at the
    /// node reached; the walk's end gives that node's result when it has no
    /// children, else the choice of its children's keys.
    pub fn match_prefix<'a>(&'a self, prefix: &[Key]) -> (m: PrefixMatch<'a>)
        requires
            self.wf(),
        ensures
            match_view(m) == match_spec(*self, prefix@),
    {
        let mut cur: &'a TrieNode = self;
        let mut i: usize = 0;
        assert(prefix@.skip(0) =~= prefix@);
        while i < prefix.len()
            invariant
                i <= prefix@.len(),
                cur.wf(),
                walk(*self, prefix@) == walk(*cur, prefix@.skip(i as int)),
            decreases prefix@.len() - i,
        {
            let key = prefix[i];
            let ghost rest = prefix@.skip(i as int);
            assert(rest[0] == key);
            assert(rest.drop_first() =~= prefix@.skip(i + 1));
            if key == Key::NoKey {
                return prefix_from_dk(&cur.dk);
            }
            match cur.find_child(key) {
                Some(j) => {
                    assert(cur.children@[j as int].1.wf());
                    cur = &cur.children[j].1;
                },
                None => {
                    return PrefixMatch::NoMatch;
                },
            }
            i = i + 1;
        }
        assert(prefix@.skip(i as int).len() == 0);
        if cur.children.len() == 0 {
            prefix_from_dk(&cur.dk)
        } else {
            PrefixMatch::Choices(children_keys(&cur.children))
        }
    }

    /// The result at the node that `prefix` leads to (where a `NoKey`
    /// stops the walk), taken out of the trie.
    pub fn into_match(self, prefix: &[Key]) -> (r: Option<DK>)
        requires
            self.wf(),
        ensures
            r == match walk(self, prefix@) {
                Some((cur, _)) => cur.dk,
                None => None,
            },
    {
        let ghost whole = self;
        let mut cur = self;
        let mut i: usize = 0;
        assert(prefix@.skip(0) =~= prefix@);
        while i < prefix.len()
            invariant
                i <= prefix@.len(),
                cur.wf(),
                whole == self,
                walk(whole, prefix@) == walk(cur, prefix@.skip(i as int)),
            decreases prefix@.len() - i,
        {
            let key = prefix[i];
            let ghost rest = prefix@.skip(i as int);
            assert(rest[0] == key);
            assert(rest.drop_first() =~= prefix@.skip(i + 1));
            if key == Key::NoKey {
                return cur.dk;
            }
            match cur.find_child(key) {
                Some(j) => {
                    assert(cur.children@[j as int].1.wf());
                    let mut children = cur.children;
                    let (_k, node) = children.remove(j);
                    cur = node;
                },
                None => {
                    return None;
                },
            }
            i = i + 1;
        }
        assert(prefix@.skip(i as int).len() == 0);
        cur.dk
    }

    /// The longest prefix of `input` that binds a result, and the keys that
    /// remain; else, when the whole input leads to a choice of next keys,
    /// those keys; else nothing.
    pub fn longest_prefix<'a, 'b>(&'a self, input: &'b [Key]) -> (m: Mapping<'a, 'b>)
        requires
            self.wf(),
        ensures
            match longest_match(*self, input@, input@.len() as int) {
                Some(j) => m matches Mapping::Bound { dk, remaining } && Some(*dk) == match_spec(
                    *self,
                    input@.take(j + 1),
                ).1 && remaining@ == input@.skip(j + 1),
                None => if input@.len() > 0 && match_spec(*self, input@).0 == 2 {
                    m matches Mapping::Choices(ks) && ks@ == match_spec(*self, input@).2
                } else {
                    m is NoMapping
                },
            },
    {
        let mut choices: Mapping<'a, 'b> = Mapping::NoMapping;
        let mut i: usize = input.len();
        while i > 0
            invariant
                i <= input@.len(),
                self.wf(),
                longest_match(*self, input@, input@.len() as int) == longest_match(*self, input@, i as int),
                i < input@.len() ==> if match_spec(*self, input@).0 == 2 {
                    choices matches Mapping::Choices(ks) && ks@ == match_spec(*self, input@).2
                } else {
                    choices is NoMapping
                },
                i == input@.len() ==> choices is NoMapping,
            decreases i,
        {
            let prefix = &input[0..i];
            assert(prefix@ == input@.take(i as int));
            let pm = self.match_prefix(prefix);
            match pm {
                PrefixMatch::DK(dk) => {
                    return Mapping::Bound { dk, remaining: &input[i..input.len()] };
                },
                PrefixMatch::Choices(children) => {
                    if i == input.len() {
                        assert(input@.take(i as int) =~= input@);
                        choices = Mapping::Choices(children);
                    }
                },
                PrefixMatch::NoMatch => {
                    if i == input.len() {
                        assert(input@.take(i as int) =~= input@);
                    }
                },
            }
            i = i - 1;
        }
        choices
    }

    /// This trie with the bindings added, each overriding what its keys
    /// produced before.
    pub fn with_bindings(self, bindings: Bindings) -> (t: Self)
        requires
            self.wf(),
            self.live(),
        ensures
            t.wf(),
            t.live(),
            forall|p: Seq<Key>|
                #[trigger] t.lookup(p) == bindings_lookup(bindings.entries(), p, self.lookup(p)),
    {
        let ghost es = bindings.entries();
        let mut node = self;
        let mut entries = bindings.get_map();
        let ghost mut done: int = 0;
        while entries.len() > 0
            invariant
                node.wf(),
                node.live(),
                0 <= done <= es.len(),
                entries@ == es.skip(done),
                forall|p: Seq<Key>|
                    #[trigger] node.lookup(p) == bindings_lookup(es.take(done), p, self.lookup(p)),
            decreases entries@.len(),
        {
            let (keys, dk) = entries.remove(0);
            let ghost prev = node;
            node.insert(dk, keys.as_slice());
            proof {
                assert(es[done] == (keys, dk));
                assert(es.take(done + 1).drop_last() =~= es.take(done));
                assert(es.skip(done).drop_first() =~= es.skip(done + 1));
                done = done + 1;
            }
        }
        proof {
            assert(es.take(done) =~= es);
        }
        node
    }

    /// The trie of a chain of views' bindings, from the focused view up to
    /// the root: a later list overrides an earlier one.
    pub fn from_ancestor_path(ancestor_bindings: Vec<Bindings>) -> (t: Self)
        ensures
            t.wf(),
            t.live(),
            forall|p: Seq<Key>|
                #[trigger] t.lookup(p) == layered_lookup(
                    ancestor_bindings@.map_values(|b: Bindings| b.entries()),
                    p,
                ),
    {
        let ghost ls = ancestor_bindings@.map_values(|b: Bindings| b.entries());
        let mut node = TrieNode::new();
        let mut list = ancestor_bindings;
        let ghost mut done: int = 0;
        let ghost all = list@;
        while list.len() > 0
            invariant
                node.wf(),
                node.live(),
                0 <= done <= all.len(),
                ls == all.map_values(|b: Bindings| b.entries()),
                list@ == all.skip(done),
                forall|p: Seq<Key>|
                    #[trigger] node.lookup(p) == layered_lookup(ls.take(done), p),
            decreases list@.len(),
        {
            let b = list.remove(0);
            let ghost prev = node;
            node = node.with_bindings(b);
            proof {
                assert(all[done] == b);
                assert(ls.take(done + 1).drop_last() =~= ls.take(done));
                assert(ls.take(done + 1).last() == b.entries());
                assert(all.skip(done).drop_first() =~= all.skip(done + 1));
                done = done + 1;
            }
        }
        proof {
            assert(ls.take(done) =~= ls);
        }
        node
    }
}

} // verus!
