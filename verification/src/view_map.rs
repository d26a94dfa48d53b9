use vstd::prelude::*;
use crate::bindings::{bound_keys, Bindings};
use crate::docview::{docview_bound, docview_keys};
use crate::dk::DK;
use crate::key::Key;
use crate::message::Message;
use crate::target::Target;
use crate::trie::{layered_lookup, longest_match, match_spec, walk, Mapping, TrieNode};
use std::collections::VecDeque;
use crate::commandline::CommandLine;
use crate::docview::DocView;
use crate::editor::Editor;
use crate::plugin::PluginRef;
use crate::docview::{command_checked, command_effect, command_safe, display_ok, doc_drawn, key_effect, key_safe, status_text};
use crate::bitmap::{same_but_glyphs, BitmapView};
use crate::commandline::{command_line_bound, command_line_drawn, opt_view};
use crate::consts::{PROP_DOC_FILENAME, PROP_DOC_IS_MODIFIED, PROP_DOCVIEW_CURSOR_POS, PROP_DOCVIEW_STATUS, PROP_EDITOR_SHOULD_QUIT};
use crate::doc::rows_view;
use crate::commandline::{line_command_effect, line_key_effect, line_key_safe};
use crate::variant::Variant;
use crate::mode::Mode;
use crate::key::key_text;
use crate::text::push_str;
use crate::error::Error;
use crate::keygen::ViewKeyGenerator;
use crate::status::{Status, STATUS_MESSAGE_MS};
use crate::text::{debug_text, str_eq};
use crate::variant::variants_debug;
use crate::view::{View as ViewTrait, ViewKey};
use crate::vstack::{share, stack_rects, VStack};
use crate::types::{Pos, Rect, Size};
use crate::glyph::Glyph;
use crate::layout::{children_result, laid_keys, layout_result};

verus! {

/// A view of the editor, of any kind.
pub enum ViewRef {
    Doc(DocView),
    CommandLine(CommandLine),
    Editor(Editor),
    VStack(VStack),
}

impl ViewTrait for DocView {
    open spec fn key_of(&self) -> ViewKey {
        self.key_spec()
    }

    fn get_view_key(&self) -> (k: ViewKey) {
        DocView::get_view_key(self)
    }

    fn into_view_ref(self) -> (v: ViewRef) {
        ViewRef::Doc(self)
    }
}

impl ViewTrait for CommandLine {
    open spec fn key_of(&self) -> ViewKey {
        self.view_key_spec()
    }

    fn get_view_key(&self) -> (k: ViewKey) {
        CommandLine::get_view_key(self)
    }

    fn into_view_ref(self) -> (v: ViewRef) {
        ViewRef::CommandLine(self)
    }
}

impl ViewTrait for Editor {
    open spec fn key_of(&self) -> ViewKey {
        self.view_key_spec()
    }

    fn get_view_key(&self) -> (k: ViewKey) {
        Editor::get_view_key(self)
    }

    fn into_view_ref(self) -> (v: ViewRef) {
        ViewRef::Editor(self)
    }
}

impl ViewTrait for VStack {
    open spec fn key_of(&self) -> ViewKey {
        self.view_key_spec()
    }

    fn get_view_key(&self) -> (k: ViewKey) {
        VStack::get_view_key(self)
    }

    fn into_view_ref(self) -> (v: ViewRef) {
        ViewRef::VStack(self)
    }
}

/// Wraps a view as a view of any kind.
pub fn viewref<T: ViewTrait>(x: T) -> (v: ViewRef)
    ensures
        v.key_spec() == x.key_of(),
{
    x.into_view_ref()
}

impl ViewRef {
    /// The key under which the view is registered.
    pub open spec fn key_spec(&self) -> ViewKey {
        match self {
            ViewRef::Doc(v) => v.key_spec(),
            ViewRef::CommandLine(v) => v.view_key_spec(),
            ViewRef::Editor(v) => v.view_key_spec(),
            ViewRef::VStack(v) => v.view_key_spec(),
        }
    }

    /// The view keeps its invariant.
    pub open spec fn wf(&self) -> bool {
        match self {
            ViewRef::Doc(v) => v.wf(),
            ViewRef::CommandLine(v) => v.wf(),
            _ => true,
        }
    }

    pub fn get_view_key(&self) -> (k: ViewKey)
        ensures
            k == self.key_spec(),
    {
        match self {
            ViewRef::Doc(v) => v.get_view_key(),
            ViewRef::CommandLine(v) => v.get_view_key(),
            ViewRef::Editor(v) => v.get_view_key(),
            ViewRef::VStack(v) => v.get_view_key(),
        }
    }

    /// The key bindings of the view.
    pub fn get_key_bindings(&self) -> (b: Bindings)
        ensures
            b.wf(),
            bound_keys(b.entries()) == view_bound_keys(*self),
            view_bindings_ok(*self, b.entries()),
    {
        match self {
            ViewRef::Doc(v) => v.get_key_bindings(),
            ViewRef::CommandLine(v) => v.get_key_bindings(),
            ViewRef::Editor(v) => v.get_key_bindings(),
            ViewRef::VStack(v) => v.get_key_bindings(),
        }
    }

    /// Shows `status`: the command line takes it, other views ignore it.
    pub fn set_status(&mut self, status: Status)
        ensures
            match *old(self) {
                ViewRef::CommandLine(c) => *final(self) matches ViewRef::CommandLine(d) && {
                    &&& d.status_spec() == status
                    &&& d.view_key_spec() == c.view_key_spec()
                    &&& d.cursor_spec() == c.cursor_spec()
                    &&& d.scroll_spec() == c.scroll_spec()
                    &&& d.text_spec() == c.text_spec()
                },
                _ => *final(self) == *old(self),
            },
    {
        match self {
            ViewRef::CommandLine(v) => v.set_status(status),
            _ => {},
        }
    }
}

/// An entry of the view map: a key, its view, and the key of its parent.
pub type ViewEntry = (ViewKey, ViewRef, Option<ViewKey>);

/// The index of the entry for `vk`, or -1.
pub open spec fn slot(es: Seq<ViewEntry>, vk: ViewKey) -> int {
    if exists|i: int| 0 <= i < es.len() && es[i].0 == vk {
        choose|i: int| 0 <= i < es.len() && es[i].0 == vk
    } else {
        -1
    }
}

/// The index of the name `n`, or -1.
pub open spec fn name_slot(ns: Seq<(Seq<char>, ViewKey)>, n: Seq<char>) -> int {
    if exists|i: int| 0 <= i < ns.len() && ns[i].0 == n {
        choose|i: int| 0 <= i < ns.len() && ns[i].0 == n
    } else {
        -1
    }
}

/// `s` without any `k`.
pub open spec fn without(s: Seq<ViewKey>, k: ViewKey) -> Seq<ViewKey>
    decreases s.len(),
{
    if s.len() == 0 {
        Seq::empty()
    } else {
        without(s.drop_last(), k) + if s.last() == k {
            Seq::empty()
        } else {
            seq![s.last()]
        }
    }
}

/// The views of the editor, by key; their names; the stack of focused
/// views (the last has the focus); the key generator; and the root view.
pub struct ViewMap {
    map: Vec<ViewEntry>,
    named_views: Vec<(String, ViewKey)>,
    previous_views: Vec<ViewKey>,
    view_key_gen: ViewKeyGenerator,
    root_view_key: Option<ViewKey>,
}

impl ViewMap {
    pub closed spec fn entries(&self) -> Seq<ViewEntry> {
        self.map@
    }

    pub closed spec fn names(&self) -> Seq<(Seq<char>, ViewKey)> {
        self.named_views@.map_values(|e: (String, ViewKey)| (e.0@, e.1))
    }

    pub closed spec fn focus(&self) -> Seq<ViewKey> {
        self.previous_views@
    }

    pub closed spec fn next_key_spec(&self) -> usize {
        self.view_key_gen.next_spec()
    }

    pub closed spec fn root(&self) -> Option<ViewKey> {
        self.root_view_key
    }

    /// A view is registered under `vk`.
    pub open spec fn has(&self, vk: ViewKey) -> bool {
        slot(self.entries(), vk) >= 0
    }

    /// The view registered under `vk`.
    pub open spec fn view_at(&self, vk: ViewKey) -> ViewRef {
        self.entries()[slot(self.entries(), vk)].1
    }

    /// The parent of the view registered under `vk`.
    pub open spec fn parent(&self, vk: ViewKey) -> Option<ViewKey> {
        self.entries()[slot(self.entries(), vk)].2
    }

    /// Keys and names are unique, and every focused or named key has a view.
    pub open spec fn wf(&self) -> bool {
        &&& forall|i: int, j: int| 0 <= i < j < self.entries().len() ==> self.entries()[i].0 != self.entries()[j].0
        &&& forall|i: int, j: int| 0 <= i < j < self.names().len() ==> self.names()[i].0 != self.names()[j].0
        &&& forall|i: int| 0 <= i < self.focus().len() ==> self.has(#[trigger] self.focus()[i])
        &&& forall|i: int| 0 <= i < self.names().len() ==> self.has((#[trigger] self.names()[i]).1)
        &&& forall|i: int| 0 <= i < self.entries().len() ==> (#[trigger] self.entries()[i]).1.key_spec() == self.entries()[i].0
        &&& forall|i: int| 0 <= i < self.entries().len() ==> (#[trigger] self.entries()[i]).1.wf()
    }

    /// No views, no names, nothing focused, no root; keys start at zero.
    pub fn new() -> (m: Self)
        ensures
            m.wf(),
            m.entries().len() == 0,
            m.names().len() == 0,
            m.focus().len() == 0,
            m.next_key_spec() == 0,
            m.root() is None,
    {
        let m = ViewMap {
            map: Vec::new(),
            named_views: Vec::new(),
            previous_views: Vec::new(),
            view_key_gen: ViewKeyGenerator::new(),
            root_view_key: None,
        };
        assert(m.names() =~= Seq::<(Seq<char>, ViewKey)>::empty());
        m
    }
}


/// `i` is the entry for `vk` when keys are unique.
proof fn lemma_slot(es: Seq<ViewEntry>, vk: ViewKey, i: int)
    requires
        forall|a: int, b: int| 0 <= a < b < es.len() ==> es[a].0 != es[b].0,
        0 <= i < es.len(),
        es[i].0 == vk,
    ensures
        slot(es, vk) == i,
{
    let c = slot(es, vk);
    assert(0 <= c < es.len() && es[c].0 == vk);
    if c < i {
        assert(es[c].0 != es[i].0);
    } else if c > i {
        assert(es[i].0 != es[c].0);
    }
}

/// Focus and go back: after focusing `k`, `k` has the focus and stands in
/// the focus stack once; going back from there gives the focus to the view
/// that had it before, unless that view was `k` itself.
pub proof fn law_focus_then_back(s: Seq<ViewKey>, k: ViewKey)
    ensures
        without(s, k).push(k).last() == k,
        !without(s, k).push(k).drop_last().contains(k),
        forall|x: ViewKey| x != k ==> (s.contains(x) <==> without(s, k).push(k).contains(x)),
        s.len() > 0 && s.last() != k ==> without(s, k).push(k).drop_last().last() == s.last(),
{
    lemma_without(s, k);
    let w = without(s, k);
    assert(w.push(k).drop_last() =~= w);
    assert forall|x: ViewKey| x != k implies (w.contains(x) <==> w.push(k).contains(x)) by {
        if w.push(k).contains(x) {
            let j = choose|j: int| 0 <= j < w.push(k).len() && w.push(k)[j] == x;
            assert(w[j] == x);
        }
        if w.contains(x) {
            let j = choose|j: int| 0 <= j < w.len() && w[j] == x;
            assert(w.push(k)[j] == x);
        }
    }
}

/// `i` holds the name `n` when names are unique.
proof fn lemma_name_slot(ns: Seq<(Seq<char>, ViewKey)>, n: Seq<char>, i: int)
    requires
        forall|a: int, b: int| 0 <= a < b < ns.len() ==> ns[a].0 != ns[b].0,
        0 <= i < ns.len(),
        ns[i].0 == n,
    ensures
        name_slot(ns, n) == i,
{
    let c = name_slot(ns, n);
    assert(0 <= c < ns.len() && ns[c].0 == n);
    if c < i {
        assert(ns[c].0 != ns[i].0);
    } else if c > i {
        assert(ns[i].0 != ns[c].0);
    }
}

/// Focusing `k` puts it on top of the stack, once.
pub proof fn lemma_without(s: Seq<ViewKey>, k: ViewKey)
    ensures
        !without(s, k).contains(k),
        forall|x: ViewKey| x != k ==> (s.contains(x) <==> without(s, k).contains(x)),
        s.len() > 0 && s.last() != k ==> without(s, k).len() > 0 && without(s, k).last() == s.last(),
    decreases s.len(),
{
    if s.len() > 0 {
        lemma_without(s.drop_last(), k);
        let p = without(s.drop_last(), k);
        assert forall|x: ViewKey| x != k implies (s.contains(x) <==> without(s, k).contains(x)) by {
            if s.contains(x) {
                let i = choose|i: int| 0 <= i < s.len() && s[i] == x;
                if i < s.len() - 1 {
                    assert(s.drop_last()[i] == x);
                    assert(s.drop_last().contains(x));
                    assert(p.contains(x));
                    let j = choose|j: int| 0 <= j < p.len() && p[j] == x;
                    assert(without(s, k)[j] == x);
                } else {
                    assert(without(s, k).last() == x);
                }
            }
            if without(s, k).contains(x) {
                let j = choose|j: int| 0 <= j < without(s, k).len() && without(s, k)[j] == x;
                if j < p.len() {
                    assert(p[j] == x);
                    assert(p.contains(x));
                    assert(s.drop_last().contains(x));
                    let i = choose|i: int| 0 <= i < s.drop_last().len() && s.drop_last()[i] == x;
                    assert(s.drop_last()[i] == s[i]);
                    assert(s.contains(x));
                } else {
                    assert(s.last() == x);
                    assert(s[s.len() - 1] == x);
                }
            }
        }
        if without(s, k).contains(k) {
            let j = choose|j: int| 0 <= j < without(s, k).len() && without(s, k)[j] == k;
            if j < p.len() {
                assert(p[j] == k);
            }
        }
    }
}

impl ViewMap {
    /// The index of the entry for `vk`, if any.
    fn find(&self, vk: ViewKey) -> (r: Option<usize>)
        requires
            self.wf(),
        ensures
            match r {
                Some(i) => i == slot(self.entries(), vk) && self.has(vk),
                None => !self.has(vk),
            },
    {
        let mut i: usize = 0;
        while i < self.map.len()
            invariant
                i <= self.map@.len(),
                self.wf(),
                forall|j: int| 0 <= j < i ==> self.map@[j].0 != vk,
            decreases self.map@.len() - i,
        {
            if self.map[i].0 == vk {
                proof {
                    lemma_slot(self.entries(), vk, i as int);
                }
                return Some(i);
            }
            i = i + 1;
        }
        None
    }

    /// Whether a view is registered under `vk`.
    pub fn contains(&self, vk: ViewKey) -> (b: bool)
        requires
            self.wf(),
        ensures
            b == self.has(vk),
    {
        self.find(vk).is_some()
    }

    /// The key registered under the name `name`, if any.
    pub fn named_key(&self, name: &str) -> (r: Option<ViewKey>)
        requires
            self.wf(),
        ensures
            name_slot(self.names(), name@) >= 0 ==> r == Some(self.names()[name_slot(self.names(), name@)].1),
            name_slot(self.names(), name@) < 0 ==> r is None,
    {
        let mut i: usize = 0;
        while i < self.named_views.len()
            invariant
                i <= self.named_views@.len(),
                self.wf(),
                forall|j: int| 0 <= j < i ==> self.names()[j].0 != name@,
            decreases self.named_views@.len() - i,
        {
            assert(self.names()[i as int] == (self.named_views@[i as int].0@, self.named_views@[i as int].1));
            if str_eq(self.named_views[i].0.as_str(), name) {
                proof {
                    lemma_name_slot(self.names(), name@, i as int);
                }
                return Some(self.named_views[i].1);
            }
            i = i + 1;
        }
        proof {
            if name_slot(self.names(), name@) >= 0 {
                let c = name_slot(self.names(), name@);
                assert(self.names()[c].0 == name@);
            }
        }
        None
    }

    /// Registers `view` under `vk` (replacing any view there) with the
    /// parent `parent`, and under the name `name` if given, which must not be
    /// taken.
    pub fn insert(&mut self, vk: ViewKey, view: ViewRef, parent: Option<ViewKey>, name: Option<String>)
        requires
            old(self).wf(),
            view.key_spec() == vk,
            view.wf(),
            name matches Some(n) ==> name_slot(old(self).names(), n@) < 0,
        ensures
            final(self).wf(),
            final(self).entries() == if old(self).has(vk) {
                old(self).entries().update(slot(old(self).entries(), vk), (vk, view, parent))
            } else {
                old(self).entries().push((vk, view, parent))
            },
            final(self).names() == match name {
                Some(n) => old(self).names().push((n@, vk)),
                None => old(self).names(),
            },
            final(self).focus() == old(self).focus(),
            final(self).next_key_spec() == old(self).next_key_spec(),
            final(self).root() == old(self).root(),
            final(self).has(vk),
            final(self).view_at(vk) == view,
            final(self).parent(vk) == parent,
            forall|k: ViewKey| k != vk ==> {
                &&& #[trigger] final(self).has(k) == old(self).has(k)
                &&& old(self).has(k) ==> final(self).view_at(k) == old(self).view_at(k)
                &&& old(self).has(k) ==> final(self).parent(k) == old(self).parent(k)
            },
    {
        let ghost es0 = self.entries();
        let ghost ns0 = self.names();
        match self.find(vk) {
            Some(i) => {
                self.map.set(i, (vk, view, parent));
            },
            None => {
                self.map.push((vk, view, parent));
            },
        }
        proof {
            let es = self.entries();
            assert forall|k: ViewKey| #[trigger] slot(es0, k) >= 0 implies slot(es, k) >= 0 by {
                let c = slot(es0, k);
                assert(es[c].0 == k);
            }
            assert(slot(es, vk) >= 0) by {
                if old(self).has(vk) {
                    assert(es[slot(es0, vk)].0 == vk);
                } else {
                    assert(es[es0.len() as int].0 == vk);
                }
            }
        }
        match name {
            Some(n) => {
                let ghost nv = n@;
                self.named_views.push((n, vk));
                proof {
                    assert(self.names() =~= ns0.push((nv, vk)));
                    assert forall|i: int, j: int| 0 <= i < j < self.names().len() implies self.names()[i].0 != self.names()[j].0 by {
                        if j == ns0.len() {
                            if ns0[i].0 == nv {
                                assert(name_slot(ns0, nv) >= 0);
                            }
                        }
                    }
                }
            },
            None => {},
        }
        proof {
            let es = self.entries();
            assert forall|i: int| 0 <= i < es.len() implies (#[trigger] es[i]).1.key_spec() == es[i].0 && es[i].1.wf() by {
                if i < es0.len() && es[i] == es0[i] {
                    assert(old(self).entries()[i].1.key_spec() == old(self).entries()[i].0);
                    assert(old(self).entries()[i].1.wf());
                }
            }
            assert forall|i: int| 0 <= i < self.focus().len() implies self.has(#[trigger] self.focus()[i]) by {
                assert(old(self).has(old(self).focus()[i]));
                assert(slot(es0, self.focus()[i]) >= 0);
            }
            assert forall|i: int| 0 <= i < self.names().len() implies self.has((#[trigger] self.names()[i]).1) by {
                if i < ns0.len() {
                    assert(self.names()[i] == ns0[i]);
                    assert(old(self).has(old(self).names()[i].1));
                    assert(slot(es0, ns0[i].1) >= 0);
                }
            }
            let idx = if old(self).has(vk) { slot(es0, vk) } else { es0.len() as int };
            assert(es[idx].0 == vk);
            lemma_slot(es, vk, idx);
            assert forall|k: ViewKey| k != vk implies {
                &&& #[trigger] self.has(k) == old(self).has(k)
                &&& old(self).has(k) ==> self.view_at(k) == old(self).view_at(k)
                &&& old(self).has(k) ==> self.parent(k) == old(self).parent(k)
            } by {
                if old(self).has(k) {
                    let c = slot(es0, k);
                    assert(es0[c].0 == k);
                    assert(es[c] == es0[c]);
                    lemma_slot(es, k, c);
                } else if self.has(k) {
                    let c = slot(es, k);
                    assert(es[c].0 == k);
                    assert(c != idx);
                    assert(es[c] == es0[c]);
                    assert(es0[c].0 == k);
                    assert(slot(es0, k) >= 0);
                }
            }
        }
    }

    /// The view registered under `vk`.
    pub fn get_view(&self, vk: ViewKey) -> (v: &ViewRef)
        requires
            self.wf(),
            self.has(vk),
        ensures
            *v == self.view_at(vk),
    {
        let i = self.find(vk).unwrap();
        &self.map[i].1
    }

    /// The parent of the view registered under `vk`.
    pub fn parent_of(&self, vk: ViewKey) -> (p: Option<ViewKey>)
        requires
            self.wf(),
            self.has(vk),
        ensures
            p == self.parent(vk),
    {
        let i = self.find(vk).unwrap();
        self.map[i].2
    }

    /// The view registered under the name `name`, if any.
    pub fn get_named_view(&self, name: &str) -> (v: Option<&ViewRef>)
        requires
            self.wf(),
        ensures
            name_slot(self.names(), name@) >= 0 ==> v == Some(&self.view_at(self.names()[name_slot(self.names(), name@)].1)),
            name_slot(self.names(), name@) < 0 ==> v is None,
    {
        match self.named_key(name) {
            Some(vk) => {
                proof {
                    let c = name_slot(self.names(), name@);
                    assert(self.has(self.names()[c].1));
                }
                Some(self.get_view(vk))
            },
            None => None,
        }
    }

    /// Puts `vk` on top of the focus stack, taking it out from below.
    pub fn set_focused_view(&mut self, view_key_to_focus: ViewKey)
        requires
            old(self).wf(),
            old(self).has(view_key_to_focus),
        ensures
            final(self).wf(),
            final(self).focus() == without(old(self).focus(), view_key_to_focus).push(view_key_to_focus),
            final(self).entries() == old(self).entries(),
            final(self).names() == old(self).names(),
            final(self).next_key_spec() == old(self).next_key_spec(),
            final(self).root() == old(self).root(),
    {
        let ghost s = self.focus();
        let mut kept: Vec<ViewKey> = Vec::new();
        let mut i: usize = 0;
        while i < self.previous_views.len()
            invariant
                i <= s.len(),
                s == self.previous_views@,
                kept@ == without(s.take(i as int), view_key_to_focus),
            decreases s.len() - i,
        {
            let k = self.previous_views[i];
            proof {
                assert(s.take(i + 1).drop_last() =~= s.take(i as int));
                assert(s.take(i + 1).last() == k);
            }
            if k != view_key_to_focus {
                kept.push(k);
            }
            proof {
                assert(kept@ =~= without(s.take(i + 1), view_key_to_focus));
            }
            i = i + 1;
        }
        assert(s.take(s.len() as int) =~= s);
        kept.push(view_key_to_focus);
        self.previous_views = kept;
        proof {
            assert(self.names() == old(self).names());
            assert(self.entries() == old(self).entries());
            lemma_without(s, view_key_to_focus);
            assert forall|i: int| 0 <= i < self.focus().len() implies self.has(#[trigger] self.focus()[i]) by {
                let x = self.focus()[i];
                if x != view_key_to_focus {
                    assert(i < without(s, view_key_to_focus).len());
                    assert(self.focus()[i] == without(s, view_key_to_focus)[i]);
                    assert(without(s, view_key_to_focus).contains(x));
                    assert(s.contains(x));
                    let j = choose|j: int| 0 <= j < s.len() && s[j] == x;
                    assert(old(self).has(old(self).focus()[j]));
                }
            }
            assert forall|i: int| 0 <= i < self.names().len() implies self.has((#[trigger] self.names()[i]).1) by {
                assert(old(self).has(old(self).names()[i].1));
            }
        }
    }

    /// The view on top of the focus stack.
    pub fn focused_view_key(&self) -> (k: ViewKey)
        requires
            self.focus().len() > 0,
        ensures
            k == self.focus().last(),
    {
        self.previous_views[self.previous_views.len() - 1]
    }

    /// The focused view.
    pub fn focused_view(&self) -> (v: &ViewRef)
        requires
            self.wf(),
            self.focus().len() > 0,
        ensures
            *v == self.view_at(self.focus().last()),
    {
        let k = self.focused_view_key();
        assert(self.has(self.focus()[self.focus().len() - 1]));
        self.get_view(k)
    }

    /// Gives the focus back to the view focused before.
    pub fn goto_previous_view(&mut self)
        requires
            old(self).wf(),
        ensures
            final(self).wf(),
            final(self).focus() == if old(self).focus().len() > 0 {
                old(self).focus().drop_last()
            } else {
                old(self).focus()
            },
            final(self).entries() == old(self).entries(),
            final(self).names() == old(self).names(),
            final(self).next_key_spec() == old(self).next_key_spec(),
            final(self).root() == old(self).root(),
    {
        let _ = self.previous_views.pop();
        proof {
            assert(self.names() == old(self).names());
            assert(self.entries() == old(self).entries());
            assert forall|i: int| 0 <= i < self.focus().len() implies self.has(#[trigger] self.focus()[i]) by {
                assert(self.focus()[i] == old(self).focus()[i]);
                assert(old(self).has(old(self).focus()[i]));
            }
            assert forall|i: int| 0 <= i < self.names().len() implies self.has((#[trigger] self.names()[i]).1) by {
                assert(old(self).has(old(self).names()[i].1));
            }
        }
    }

    /// A fresh key.
    pub fn get_next_key(&mut self) -> (k: ViewKey)
        requires
            old(self).next_key_spec() < usize::MAX,
        ensures
            k == ViewKey(old(self).next_key_spec()),
            final(self).next_key_spec() == old(self).next_key_spec() + 1,
            final(self).entries() == old(self).entries(),
            final(self).names() == old(self).names(),
            final(self).focus() == old(self).focus(),
            final(self).root() == old(self).root(),
    {
        self.view_key_gen.next_key()
    }

    pub fn set_root_view_key(&mut self, vk: ViewKey)
        ensures
            final(self).root() == Some(vk),
            final(self).entries() == old(self).entries(),
            final(self).names() == old(self).names(),
            final(self).focus() == old(self).focus(),
            final(self).next_key_spec() == old(self).next_key_spec(),
    {
        self.root_view_key = Some(vk);
    }

    /// How many views are on the focus stack.
    pub fn focus_count(&self) -> (n: usize)
        ensures
            n == self.focus().len(),
    {
        self.previous_views.len()
    }

    /// The root view's key, if there is a root.
    pub fn root_view_key(&self) -> (k: Option<ViewKey>)
        ensures
            k == self.root(),
    {
        self.root_view_key
    }

    pub fn get_root_view_key(&self) -> (k: ViewKey)
        requires
            self.root() is Some,
        ensures
            k == self.root().unwrap(),
    {
        self.root_view_key.unwrap()
    }

    /// The root view.
    pub fn get_root_view(&self) -> (v: &ViewRef)
        requires
            self.wf(),
            self.root() matches Some(r) && self.has(r),
        ensures
            *v == self.view_at(self.root().unwrap()),
    {
        self.get_view(self.root_view_key.unwrap())
    }

    /// The view map's one command: `focus-previous` gives the focus back to
    /// the view focused before.
    pub fn execute_command(&mut self, name: String, _args: Vec<Variant>) -> (r: Result<Status, Error>)
        requires
            old(self).wf(),
            name@ == "focus-previous"@,
        ensures
            r matches Ok(Status::Cleared),
            final(self).wf(),
            final(self).focus() == if old(self).focus().len() > 0 {
                old(self).focus().drop_last()
            } else {
                old(self).focus()
            },
            final(self).entries() == old(self).entries(),
            final(self).names() == old(self).names(),
            final(self).next_key_spec() == old(self).next_key_spec(),
            final(self).root() == old(self).root(),
    {
        self.goto_previous_view();
        Ok(Status::Cleared)
    }
}


/// The keys from `vk` up through its parents to a view without one, where
/// that takes at most `fuel` steps; `None` where it does not (a view is
/// missing, or the parents go round in a circle).
pub open spec fn chain(m: ViewMap, vk: ViewKey, fuel: nat) -> Option<Seq<ViewKey>>
    decreases fuel,
{
    if fuel == 0 || !m.has(vk) {
        None
    } else {
        match m.parent(vk) {
            None => Some(seq![vk]),
            Some(p) => match chain(m, p, (fuel - 1) as nat) {
                Some(c) => Some(seq![vk] + c),
                None => None,
            },
        }
    }
}

/// The views from the focused one up to the root form a chain.
pub open spec fn focus_chain_ok(m: ViewMap) -> bool {
    &&& m.focus().len() > 0
    &&& chain(m, m.focus().last(), m.entries().len() as nat) is Some
}

/// The keys at the front of `s`, up to its first entry that is not a key.
pub open spec fn leading_keys(s: Seq<DK>, ks: Seq<Key>) -> bool {
    &&& ks.len() <= s.len()
    &&& forall|j: int| 0 <= j < ks.len() ==> s[j] == DK::Key(#[trigger] ks[j])
    &&& ks.len() < s.len() ==> !(s[ks.len() as int] is Key)
}

/// What is made of the keys typed so far: something to dispatch, or the
/// keys that may come next.
pub enum HandleKey {
    DK(DK),
    Choices(Vec<Key>),
}

/// What `handle_keys` does with the pending inputs `dks` (now `rest`) and
/// the bindings trie `t` of the focused view `fk`: an input that is not a
/// key goes first; else the longest run of leading keys that binds
/// something gives that, and those keys are taken; else, where all the keys
/// lead to further choices, those; else the first key goes to the focused
/// view.
pub open spec fn handled(t: TrieNode, fk: ViewKey, dks: Seq<DK>, rest: Seq<DK>, h: HandleKey) -> bool {
    exists|ks: Seq<Key>|
        leading_keys(dks, ks) && if ks.len() == 0 {
            h == HandleKey::DK(dks[0]) && rest == dks.drop_first()
        } else {
            match longest_match(t, ks, ks.len() as int) {
                Some(j) => {
                    &&& h matches HandleKey::DK(d) && Some(d) == match_spec(t, ks.take(j + 1)).1
                    &&& rest == dks.skip(j + 1)
                },
                None => if match_spec(t, ks).0 == 2 {
                    &&& h matches HandleKey::Choices(c) && c@ == match_spec(t, ks).2
                    &&& rest == dks
                } else {
                    &&& h == HandleKey::DK(DK::Dispatch(Target::View(fk), Message::SendKey(ks[0])))
                    &&& rest == dks.drop_first()
                },
            }
        }
}

/// `t` is the trie of the bindings `bs` of the views from the focused one
/// up to the root: it produces what they bind, and has no branch that
/// leads to nothing, so that what it matches follows from what it
/// produces (see `lemma_same_lookups_same_match`).
pub open spec fn key_trie_of(m: ViewMap, t: TrieNode, bs: Seq<Bindings>) -> bool {
    &&& t.wf()
    &&& t.live()
    &&& m.path_bindings(bs)
    &&& forall|p: Seq<Key>| #[trigger] t.lookup(p) == layered_lookup(bs.map_values(|b: Bindings| b.entries()), p)
}

/// What handling the pending inputs `before` in `m` gives: `h`, leaving
/// `after` (see `handled`, in the trie of the focused view's bindings).
pub open spec fn keys_handled(m: ViewMap, before: Seq<DK>, after: Seq<DK>, h: HandleKey) -> bool {
    exists|t: TrieNode, bs: Seq<Bindings>|
        #[trigger] key_trie_of(m, t, bs) && handled(t, m.focus().last(), before, after, h)
}

/// The longest match among the first `n` keys ends before the `n`-th.
proof fn lemma_longest_match_range(t: TrieNode, input: Seq<Key>, n: int)
    ensures
        longest_match(t, input, n) matches Some(j) ==> 0 <= j < n,
    decreases n,
{
    if n > 0 {
        lemma_longest_match_range(t, input, n - 1);
    }
}

/// Decides what the pending inputs `dks` produce in the trie `trie` of the
/// focused view `fk` (see `handled`), taking what it uses from the front of
/// `dks`.
pub fn handle_keys_with(trie: TrieNode, fk: ViewKey, dks: &mut VecDeque<DK>) -> (h: HandleKey)
    requires
        trie.wf(),
        old(dks)@.len() > 0,
    ensures
        handled(trie, fk, old(dks)@, final(dks)@, h),
{
    let ghost t = trie;
    let ghost d0 = dks@;
    let mut inbound: Vec<Key> = Vec::new();
    let mut i: usize = 0;
    while i < dks.len()
        invariant
            i <= dks@.len(),
            dks@ == d0,
            inbound@.len() == i,
            forall|j: int| 0 <= j < i ==> dks@[j] == DK::Key(#[trigger] inbound@[j]),
        ensures
            i <= dks@.len(),
            dks@ == d0,
            inbound@.len() == i,
            forall|j: int| 0 <= j < i ==> dks@[j] == DK::Key(#[trigger] inbound@[j]),
            i < dks@.len() ==> !(dks@[i as int] is Key),
        decreases dks@.len() - i,
    {
        match &dks[i] {
            DK::Key(k) => {
                inbound.push(*k);
            },
            _ => {
                break;
            },
        }
        i = i + 1;
    }
    assert(leading_keys(d0, inbound@));
    if inbound.len() == 0 {
        let d = dks.pop_front().unwrap();
        assert(dks@ =~= d0.drop_first());
        return HandleKey::DK(d);
    }
    proof {
        lemma_longest_match_range(t, inbound@, inbound@.len() as int);
    }
    let (kind, consumed, choices) = match trie.longest_prefix(inbound.as_slice()) {
        Mapping::Bound { dk: _, remaining } => (0u8, inbound.len() - remaining.len(), Vec::new()),
        Mapping::Choices(ks) => (1u8, 0, ks),
        Mapping::NoMapping => (2u8, 0, Vec::new()),
    };
    if kind == 0 {
        let ghost j = longest_match(t, inbound@, inbound@.len() as int).unwrap();
        let mut n: usize = 0;
        while n < consumed
            invariant
                n <= consumed,
                consumed <= d0.len(),
                dks@ == d0.skip(n as int),
            decreases consumed - n,
        {
            let _ = dks.pop_front();
            assert(d0.skip(n as int).subrange(1, d0.skip(n as int).len() as int) =~= d0.skip(n + 1));
            n = n + 1;
        }
        let d = trie.into_match(&inbound.as_slice()[0..consumed]);
        proof {
            assert(inbound@.subrange(0, consumed as int) =~= inbound@.take(j + 1));
        }
        let d = d.unwrap();
        HandleKey::DK(d)
    } else if kind == 1 {
        HandleKey::Choices(choices)
    } else {
        let _ = dks.pop_front();
        assert(dks@ =~= d0.drop_first());
        HandleKey::DK(DK::Dispatch(Target::View(fk), Message::SendKey(inbound[0])))
    }
}


impl ViewMap {
    /// The keys from `vk` up through its parents to the root.
    fn ancestor_path(&self, vk: ViewKey) -> (path: Vec<ViewKey>)
        requires
            self.wf(),
            chain(*self, vk, self.entries().len() as nat) is Some,
        ensures
            path@ == chain(*self, vk, self.entries().len() as nat).unwrap(),
    {
        let ghost whole = chain(*self, vk, self.entries().len() as nat).unwrap();
        let mut path: Vec<ViewKey> = Vec::new();
        let mut cur = vk;
        let mut fuel: usize = self.map.len();
        loop
            invariant_except_break
                chain(*self, cur, fuel as nat) is Some,
                path@ + chain(*self, cur, fuel as nat).unwrap() == whole,
            invariant
                self.wf(),
            ensures
                path@ == whole,
            decreases fuel,
        {
            let view = self.get_view(cur);
            let key = view.get_view_key();
            proof {
                let i = slot(self.entries(), cur);
                assert(self.entries()[i].1.key_spec() == self.entries()[i].0);
            }
            let ghost before = path@;
            path.push(key);
            match self.parent_of(cur) {
                Some(p) => {
                    proof {
                        assert(path@ + chain(*self, p, (fuel - 1) as nat).unwrap() =~= before + chain(*self, cur, fuel as nat).unwrap());
                    }
                    cur = p;
                    fuel = fuel - 1;
                },
                None => {
                    assert(path@ =~= whole);
                    break;
                },
            }
        }
        path
    }

    /// The bindings of the views from the focused one up to the root, in
    /// that order.
    pub open spec fn path_bindings(&self, bs: Seq<Bindings>) -> bool {
        let path = chain(*self, self.focus().last(), self.entries().len() as nat).unwrap();
        &&& bs.len() == path.len()
        &&& forall|i: int| 0 <= i < path.len() ==> (#[trigger] bs[i]).wf() && bound_keys(bs[i].entries()) == view_bound_keys(self.view_at(path[i]))
            && view_bindings_ok(self.view_at(path[i]), bs[i].entries())
    }

    /// The trie of the bindings of the views from the focused one up to the
    /// root; a binding of a view overrides the same keys of the views below.
    pub fn key_trie(&self) -> (t: TrieNode)
        requires
            self.wf(),
            focus_chain_ok(*self),
        ensures
            t.wf(),
            t.live(),
            exists|bs: Seq<Bindings>|
                self.path_bindings(bs) && forall|p: Seq<Key>| #[trigger] t.lookup(p) == layered_lookup(
                    bs.map_values(|b: Bindings| b.entries()),
                    p,
                ),
    {
        let fk = self.focused_view_key();
        let path = self.ancestor_path(fk);
        let mut bindings: Vec<Bindings> = Vec::new();
        let mut i: usize = 0;
        while i < path.len()
            invariant
                self.wf(),
                focus_chain_ok(*self),
                fk == self.focus().last(),
                path@ == chain(*self, fk, self.entries().len() as nat).unwrap(),
                i <= path@.len(),
                bindings@.len() == i,
                forall|j: int| 0 <= j < i ==> (#[trigger] bindings@[j]).wf() && bound_keys(bindings@[j].entries()) == view_bound_keys(self.view_at(path@[j]))
                    && view_bindings_ok(self.view_at(path@[j]), bindings@[j].entries()),
            decreases path@.len() - i,
        {
            proof {
                lemma_chain_has(*self, fk, self.entries().len() as nat, i as int);
            }
            let view = self.get_view(path[i]);
            let b = view.get_key_bindings();
            bindings.push(b);
            i = i + 1;
        }
        let ghost bs = bindings@;
        let t = TrieNode::from_ancestor_path(bindings);
        assert(self.path_bindings(bs));
        t
    }

    /// Decides what the pending inputs `dks` produce for the focused view
    /// (see `handled`), taking what it uses from the front of `dks`.
    pub fn handle_keys(&self, dks: &mut VecDeque<DK>) -> (h: HandleKey)
        requires
            self.wf(),
            focus_chain_ok(*self),
            old(dks)@.len() > 0,
        ensures
            keys_handled(*self, old(dks)@, final(dks)@, h),
    {
        let trie = self.key_trie();
        let ghost t = trie;
        let fk = self.focused_view_key();
        let h = handle_keys_with(trie, fk, dks);
        assert(handled(t, self.focus().last(), old(dks)@, dks@, h));
        let ghost bs = choose|bs: Seq<Bindings>|
            self.path_bindings(bs) && forall|p: Seq<Key>| #[trigger] t.lookup(p) == layered_lookup(
                bs.map_values(|b: Bindings| b.entries()),
                p,
            );
        assert(key_trie_of(*self, t, bs));
        h
    }
}

/// Every key of a chain has a view.
proof fn lemma_chain_has(m: ViewMap, vk: ViewKey, fuel: nat, i: int)
    requires
        chain(m, vk, fuel) is Some,
        0 <= i < chain(m, vk, fuel).unwrap().len(),
    ensures
        m.has(chain(m, vk, fuel).unwrap()[i]),
    decreases fuel,
{
    if i > 0 {
        let p = m.parent(vk).unwrap();
        lemma_chain_has(m, p, (fuel - 1) as nat, i - 1);
    }
}

/// The key sequences that a view binds.
/// What each key sequence that a view binds produces.
pub open spec fn view_bindings_ok(v: ViewRef, es: Seq<(Vec<Key>, DK)>) -> bool {
    match v {
        ViewRef::Doc(d) => docview_bound(es, d.key_spec(), d.mode_spec()),
        ViewRef::CommandLine(c) => command_line_bound(es, c),
        _ => true,
    }
}

/// The key sequences that a view binds, in the order they are bound.
pub open spec fn view_bound_keys(v: ViewRef) -> Seq<Seq<Key>> {
    match v {
        ViewRef::Doc(d) => docview_keys(d.mode_spec()),
        ViewRef::CommandLine(_) => seq![seq![Key::Esc], seq![Key::Enter]],
        _ => Seq::empty(),
    }
}


/// Where a message goes: to the view map itself, or to a view.
pub enum Resolved {
    ViewMap,
    View(ViewKey),
}

/// Where `target` leads in `m`, if anywhere: the focused view, a registered
/// view, the root view, or the map itself.
pub open spec fn resolve_spec(m: ViewMap, target: Target) -> Option<Resolved> {
    match target {
        Target::ViewMap => Some(Resolved::ViewMap),
        Target::Focused => if m.focus().len() > 0 {
            Some(Resolved::View(m.focus().last()))
        } else {
            None
        },
        Target::View(vk) => if m.has(vk) {
            Some(Resolved::View(vk))
        } else {
            None
        },
        Target::Root => match m.root() {
            Some(r) => if m.has(r) {
                Some(Resolved::View(r))
            } else {
                None
            },
            None => None,
        },
        _ => None,
    }
}

/// The message asks a document view in normal mode to open a file.
pub open spec fn opens_file(v: ViewRef, msg: Message) -> bool {
    &&& v matches ViewRef::Doc(d) && d.mode_spec() == Mode::Normal
    &&& msg matches Message::Command { name, args } && name@ == "open"@ && args@.len() == 1 && args@[0] is String
}

/// `msg` can be delivered to `v` without stopping the editor.
pub open spec fn deliverable(v: ViewRef, msg: Message) -> bool {
    match v {
        ViewRef::Doc(d) => match msg {
            Message::SendKey(k) => key_safe(d, k),
            Message::Command { name, args } => command_safe(d, name@, args@) && !opens_file(v, msg),
        },
        ViewRef::CommandLine(c) => match msg {
            Message::SendKey(k) => line_key_safe(c, k),
            Message::Command { .. } => true,
        },
        ViewRef::Editor(_) => false,
        ViewRef::VStack(_) => msg is Command,
    }
}

/// `msg` can be delivered to `target` in `m` without stopping the editor.
pub open spec fn dispatch_ok(m: ViewMap, target: Target, msg: Message) -> bool {
    match resolve_spec(m, target) {
        Some(Resolved::ViewMap) => match msg {
            Message::Command { name, .. } => name@ == "focus-previous"@,
            Message::SendKey(_) => true,
        },
        Some(Resolved::View(vk)) => deliverable(m.view_at(vk), msg),
        None => false,
    }
}

/// The test that `dispatch_is_safe` makes, a sufficient condition for
/// `dispatch_ok`: the same as it but for a command to a document view,
/// which is held to `command_checked` in place of `command_safe`.
pub open spec fn dispatch_checked(m: ViewMap, target: Target, msg: Message) -> bool {
    match resolve_spec(m, target) {
        Some(Resolved::ViewMap) => match msg {
            Message::Command { name, .. } => name@ == "focus-previous"@,
            Message::SendKey(_) => true,
        },
        Some(Resolved::View(vk)) => match (m.view_at(vk), msg) {
            (ViewRef::Doc(d), Message::SendKey(k)) => key_safe(d, k),
            (ViewRef::Doc(d), Message::Command { name, args }) => !opens_file(m.view_at(vk), msg)
                && command_checked(d, name@, args@),
            (ViewRef::CommandLine(c), Message::SendKey(k)) => line_key_safe(c, k),
            (ViewRef::CommandLine(_), Message::Command { .. }) => true,
            (ViewRef::VStack(_), Message::Command { .. }) => true,
            _ => false,
        },
        None => false,
    }
}

/// What delivering `msg` to `v` leaves of it (`nv`) and returns.
pub open spec fn delivered(v: ViewRef, nv: ViewRef, msg: Message, r: Result<Status, Error>) -> bool {
    match (v, nv) {
        (ViewRef::Doc(a), ViewRef::Doc(b)) => match msg {
            Message::SendKey(k) => key_effect(a, b, k, r),
            Message::Command { name, args } => command_effect(a, b, name@, args@, r),
        },
        (ViewRef::CommandLine(a), ViewRef::CommandLine(b)) => match msg {
            Message::SendKey(k) => line_key_effect(a, b, k, r),
            Message::Command { name, args } => line_command_effect(a, b, name@, args@, r),
        },
        (ViewRef::VStack(a), ViewRef::VStack(b)) => match msg {
            Message::Command { name, args } => {
                &&& r matches Err(e) && e is General && e.message_view() == "Command "@ + debug_text(name@) + " "@ + variants_debug(args@)
                    + " not implemented for VStack"@
                &&& b.view_key_spec() == a.view_key_spec()
                &&& b.view_keys_spec() == a.view_keys_spec()
            },
            Message::SendKey(_) => false,
        },
        _ => false,
    }
}

/// `new` is `old` with the view under `vk` replaced by `nv`.
pub open spec fn replaced_view(old: ViewMap, new: ViewMap, vk: ViewKey, nv: ViewRef) -> bool {
    &&& new.wf()
    &&& new.entries() == old.entries().update(slot(old.entries(), vk), (vk, nv, old.parent(vk)))
    &&& new.names() == old.names()
    &&& new.focus() == old.focus()
    &&& new.next_key_spec() == old.next_key_spec()
    &&& new.root() == old.root()
}

/// What delivering `msg` to `target` does to the map and returns.
pub open spec fn dispatched(old: ViewMap, new: ViewMap, target: Target, msg: Message, r: Result<Status, Error>) -> bool {
    match resolve_spec(old, target) {
        Some(Resolved::ViewMap) => match msg {
            Message::Command { .. } => {
                &&& r matches Ok(Status::Cleared)
                &&& new.wf()
                &&& new.focus() == if old.focus().len() > 0 {
                    old.focus().drop_last()
                } else {
                    old.focus()
                }
                &&& new.entries() == old.entries()
                &&& new.names() == old.names()
                &&& new.next_key_spec() == old.next_key_spec()
                &&& new.root() == old.root()
            },
            Message::SendKey(k) => {
                &&& r matches Err(e) && e is NotImplemented && e.message_view()
                    == "wim::view_map::ViewMap::send_key does not yet exist. Needs to handle '"@ + key_text(k) + "'"@
                &&& new == old
            },
        },
        Some(Resolved::View(vk)) => exists|nv: ViewRef|
            replaced_view(old, new, vk, nv) && delivered(old.view_at(vk), nv, msg, r),
        None => false,
    }
}

impl ViewMap {
    /// Takes the entry for `vk` out of the map, to be put back with
    /// `put_back`.
    fn take_out(&mut self, vk: ViewKey) -> (r: (usize, ViewEntry))
        requires
            old(self).wf(),
            old(self).has(vk),
        ensures
            r.0 == slot(old(self).entries(), vk),
            r.1 == old(self).entries()[r.0 as int],
            final(self).entries() == old(self).entries().remove(r.0 as int),
            final(self).names() == old(self).names(),
            final(self).focus() == old(self).focus(),
            final(self).next_key_spec() == old(self).next_key_spec(),
            final(self).root() == old(self).root(),
    {
        let i = self.find(vk).unwrap();
        let e = self.map.remove(i);
        (i, e)
    }

    /// Puts an entry taken out with `take_out` back where it was.
    fn put_back(&mut self, i: usize, e: ViewEntry, Ghost(orig): Ghost<ViewMap>)
        requires
            orig.wf(),
            0 <= i < orig.entries().len(),
            old(self).entries() == orig.entries().remove(i as int),
            old(self).names() == orig.names(),
            old(self).focus() == orig.focus(),
            old(self).root() == orig.root(),
            e.0 == orig.entries()[i as int].0,
            e.2 == orig.entries()[i as int].2,
            e.1.key_spec() == e.0,
            e.1.wf(),
        ensures
            final(self).wf(),
            final(self).entries() == orig.entries().update(i as int, e),
            final(self).names() == old(self).names(),
            final(self).focus() == old(self).focus(),
            final(self).next_key_spec() == old(self).next_key_spec(),
            final(self).root() == old(self).root(),
    {
        self.map.insert(i, e);
        proof {
            let es = self.entries();
            assert(es =~= orig.entries().update(i as int, e));
            assert forall|k: ViewKey| #[trigger] slot(orig.entries(), k) >= 0 implies slot(es, k) >= 0 by {
                let c = slot(orig.entries(), k);
                assert(es[c].0 == k);
            }
            assert forall|a: int| 0 <= a < self.focus().len() implies self.has(#[trigger] self.focus()[a]) by {
                assert(orig.has(orig.focus()[a]));
            }
            assert forall|a: int| 0 <= a < self.names().len() implies self.has((#[trigger] self.names()[a]).1) by {
                assert(orig.has(orig.names()[a].1));
            }
            assert forall|a: int| 0 <= a < es.len() implies (#[trigger] es[a]).1.key_spec() == es[a].0 && es[a].1.wf() by {
                if a != i {
                    assert(es[a] == orig.entries()[a]);
                    assert(orig.entries()[a].1.key_spec() == orig.entries()[a].0);
                    assert(orig.entries()[a].1.wf());
                }
            }
            assert forall|a: int, b: int| 0 <= a < b < es.len() implies es[a].0 != es[b].0 by {
                assert(es[a].0 == orig.entries()[a].0);
                assert(es[b].0 == orig.entries()[b].0);
            }
            assert forall|a: int, b: int| 0 <= a < b < self.names().len() implies self.names()[a].0 != self.names()[b].0 by {
                assert(self.names()[a] == orig.names()[a]);
                assert(self.names()[b] == orig.names()[b]);
            }
        }
    }

    /// Where `target` leads, if anywhere.
    pub fn resolve(&self, target: &Target) -> (r: Option<Resolved>)
        requires
            self.wf(),
        ensures
            r == resolve_spec(*self, *target),
    {
        match target {
            Target::ViewMap => Some(Resolved::ViewMap),
            Target::Focused => if self.previous_views.len() > 0 {
                Some(Resolved::View(self.focused_view_key()))
            } else {
                None
            },
            Target::View(vk) => if self.contains(*vk) {
                Some(Resolved::View(*vk))
            } else {
                None
            },
            Target::Root => match self.root_view_key {
                Some(r) => if self.contains(r) {
                    Some(Resolved::View(r))
                } else {
                    None
                },
                None => None,
            },
            _ => None,
        }
    }

    /// The document view and the file name, where `msg` to `target` asks a
    /// document view in normal mode to open a file (which `open_doc` does
    /// with the file's lines).
    pub fn open_request(&self, target: &Target, msg: &Message) -> (r: Option<(ViewKey, String)>)
        requires
            self.wf(),
        ensures
            match resolve_spec(*self, *target) {
                Some(Resolved::View(vk)) => if opens_file(self.view_at(vk), *msg) {
                    r matches Some((k, f)) && k == vk && f@ == msg->Command_args@[0]->String_0@
                } else {
                    r is None
                },
                _ => r is None,
            },
    {
        match self.resolve(target) {
            Some(Resolved::View(vk)) => {
                let v = self.get_view(vk);
                match (v, msg) {
                    (ViewRef::Doc(d), Message::Command { name, args }) => {
                        if d.mode_is_normal() && str_eq(name.as_str(), "open") && args.len() == 1 {
                            match &args[0] {
                                Variant::String(f) => Some((vk, String::from_str(f.as_str()))),
                                _ => None,
                            }
                        } else {
                            None
                        }
                    },
                    _ => None,
                }
            },
            _ => None,
        }
    }

    /// Whether `msg` can be delivered to `target` without stopping the
    /// editor (see `dispatch_ok`); a run of two or more operator motions
    /// counts as unable to run.
    pub fn dispatch_is_safe(&self, target: &Target, msg: &Message) -> (b: bool)
        requires
            self.wf(),
        ensures
            b == dispatch_checked(*self, *target, *msg),
            b ==> dispatch_ok(*self, *target, *msg),
    {
        match self.resolve(target) {
            Some(Resolved::ViewMap) => match msg {
                Message::Command { name, .. } => str_eq(name.as_str(), "focus-previous"),
                Message::SendKey(_) => true,
            },
            Some(Resolved::View(vk)) => {
                let v = self.get_view(vk);
                proof {
                    let i = slot(self.entries(), vk);
                    assert(self.entries()[i].1.wf());
                }
                match (v, msg) {
                    (ViewRef::Doc(d), Message::SendKey(k)) => d.key_is_safe(*k),
                    (ViewRef::Doc(d), Message::Command { name, args }) => {
                        let opens = d.mode_is_normal() && str_eq(name.as_str(), "open") && args.len() == 1 && matches!(args[0], Variant::String(_));
                        !opens && d.command_is_safe(name.as_str(), args)
                    },
                    (ViewRef::CommandLine(c), Message::SendKey(k)) => c.key_is_safe(*k),
                    (ViewRef::CommandLine(_), Message::Command { .. }) => true,
                    (ViewRef::VStack(_), Message::Command { .. }) => true,
                    _ => false,
                }
            },
            None => false,
        }
    }

    /// Delivers `msg` to `target`: a key or a command to a view, or a
    /// command to the map itself.
    pub fn dispatch(&mut self, target: Target, msg: Message) -> (r: Result<Status, Error>)
        requires
            old(self).wf(),
            dispatch_ok(*old(self), target, msg),
        ensures
            dispatched(*old(self), *final(self), target, msg, r),
    {
        match self.resolve(&target) {
            Some(Resolved::ViewMap) => match msg {
                Message::Command { name, args } => self.execute_command(name, args),
                Message::SendKey(k) => {
                    let mut m = String::new();
                    push_str(&mut m, "wim::view_map::ViewMap::send_key does not yet exist. Needs to handle '");
                    let t = k.to_string();
                    push_str(&mut m, t.as_str());
                    push_str(&mut m, "'");
                    Err(Error::not_impl(m))
                },
            },
            Some(Resolved::View(vk)) => {
                let ghost orig = *self;
                let (i, e) = self.take_out(vk);
                let (k, view, parent) = e;
                let mut view = view;
                proof {
                    assert(orig.entries()[i as int].1.wf());
                    assert(orig.entries()[i as int].1.key_spec() == orig.entries()[i as int].0);
                }
                let ghost v0 = view;
                let r = match (&mut view, msg) {
                    (ViewRef::Doc(d), Message::SendKey(key)) => d.send_key(key),
                    (ViewRef::Doc(d), Message::Command { name, args }) => d.execute_command(name, args),
                    (ViewRef::CommandLine(c), Message::SendKey(key)) => c.send_key(key),
                    (ViewRef::CommandLine(c), Message::Command { name, args }) => c.execute_command(name, args),
                    (ViewRef::VStack(v), Message::Command { name, args }) => v.execute_command(name, args),
                    _ => {
                        proof {
                            assert(false);
                        }
                        Ok(Status::Success)
                    },
                };
                let ghost nv = view;
                self.put_back(i, (k, view, parent), Ghost(orig));
                assert(replaced_view(orig, *self, vk, nv));
                r
            },
            None => {
                proof {
                    assert(false);
                }
                Ok(Status::Success)
            },
        }
    }
}


/// The text of a list of keys: `[`, each key's text, separated by `, `,
/// then `]`.
pub open spec fn keys_text(ks: Seq<Key>) -> Seq<char>
    decreases ks.len(),
{
    if ks.len() == 0 {
        Seq::empty()
    } else if ks.len() == 1 {
        key_text(ks[0])
    } else {
        keys_text(ks.drop_last()) + ", "@ + key_text(ks.last())
    }
}

/// Takes the `NoKey`s off the front of the pending inputs.
pub fn drop_no_keys(dks: &mut VecDeque<DK>)
    ensures
        exists|n: int|
            0 <= n <= old(dks)@.len() && final(dks)@ == old(dks)@.skip(n) && (forall|j: int| 0 <= j < n ==> old(dks)@[j] == DK::Key(Key::NoKey))
                && (n < old(dks)@.len() ==> old(dks)@[n] != DK::Key(Key::NoKey)),
{
    let ghost d0 = dks@;
    let ghost mut n: int = 0;
    loop
        invariant
            0 <= n <= d0.len(),
            dks@ == d0.skip(n),
            forall|j: int| 0 <= j < n ==> d0[j] == DK::Key(Key::NoKey),
        ensures
            0 <= n <= d0.len(),
            dks@ == d0.skip(n),
            forall|j: int| 0 <= j < n ==> d0[j] == DK::Key(Key::NoKey),
            n < d0.len() ==> d0[n] != DK::Key(Key::NoKey),
        decreases d0.len() - n,
    {
        if dks.len() == 0 {
            break;
        }
        let front_is_no_key = match &dks[0] {
            DK::Key(Key::NoKey) => true,
            _ => false,
        };
        if !front_is_no_key {
            assert(d0[n] == dks@[0]);
            break;
        }
        let _ = dks.pop_front();
        proof {
            assert(d0[n] == DK::Key(Key::NoKey));
            assert(dks@ =~= d0.skip(n + 1));
            n = n + 1;
        }
    }
}

/// Puts the inputs `steps` at the front of the pending inputs, in order.
pub fn push_sequence(dks: &mut VecDeque<DK>, steps: Vec<DK>)
    ensures
        final(dks)@ == steps@ + old(dks)@,
{
    let ghost s = steps@;
    let mut steps = steps;
    while steps.len() > 0
        invariant
            dks@ == s.skip(steps@.len() as int) + old(dks)@,
            steps@ == s.take(steps@.len() as int),
            steps@.len() <= s.len(),
        decreases steps@.len(),
    {
        let ghost k = steps@.len();
        let d = steps.pop().unwrap();
        dks.push_front(d);
        assert(s.skip(k - 1) =~= seq![s[k - 1]] + s.skip(k as int));
        assert(steps@ =~= s.take(k - 1));
    }
    assert(s.skip(0) =~= s);
}

/// The status that lists the keys that may come next.
pub fn choices_status(choices: &Vec<Key>) -> (st: Status)
    ensures
        st matches Status::Message { message, duration_ms } && message@ == "Valid next bindings: ["@ + keys_text(choices@)
            + "]"@ && duration_ms == STATUS_MESSAGE_MS,
{
    let mut m = String::new();
    push_str(&mut m, "Valid next bindings: [");
    let ghost prefix = m@;
    let mut i: usize = 0;
    while i < choices.len()
        invariant
            i <= choices@.len(),
            m@ == prefix + keys_text(choices@.take(i as int)),
        decreases choices@.len() - i,
    {
        if i > 0 {
            push_str(&mut m, ", ");
        }
        let t = choices[i].to_string();
        push_str(&mut m, t.as_str());
        proof {
            let c = choices@.take(i + 1);
            assert(c.drop_last() =~= choices@.take(i as int));
            assert(c.last() == choices@[i as int]);
            if i == 0 {
                assert(keys_text(choices@.take(0)) =~= Seq::<char>::empty());
            }
        }
        i = i + 1;
    }
    assert(choices@.take(choices@.len() as int) =~= choices@);
    push_str(&mut m, "]");
    Status::message(m)
}


/// A view can be laid out in a window of `size`.
pub open spec fn layout_ok(v: ViewRef, size: Size) -> bool {
    match v {
        ViewRef::Doc(d) => {
            &&& d.scroll_spec().y + size.height <= usize::MAX
            &&& d.scroll_spec().x + size.width <= usize::MAX
            &&& d.cursor_spec().y < usize::MAX
            &&& d.render_x_spec() < usize::MAX
        },
        ViewRef::CommandLine(_) => true,
        ViewRef::Editor(_) => size.height >= 2,
        ViewRef::VStack(s) => s.view_keys_spec().len() > 0 && size.height + size.height <= usize::MAX,
    }
}

/// A view after it is laid out in a window of `size`: a document view
/// scrolls so that its cursor shows, the editor takes the window as its
/// frame, other views stay as they are.
pub open spec fn laid_out(v: ViewRef, size: Size) -> ViewRef {
    match v {
        ViewRef::Doc(d) => ViewRef::Doc(d.with_scroll(d.scroll_target(size))),
        ViewRef::Editor(e) => ViewRef::Editor(e.with_frame(Rect { x: 0, y: 0, width: size.width, height: size.height })),
        _ => v,
    }
}

/// The child views, and their rectangles, that laying a view out in a
/// window of `size` gives.
pub open spec fn children_of(v: ViewRef, size: Size) -> Seq<(ViewKey, Rect)> {
    match v {
        ViewRef::Editor(e) => (match e.top_view_key_spec() {
            Some(top) => seq![(top, Rect { x: 0, y: 0, width: size.width, height: (size.height - 2) as usize })],
            None => Seq::empty(),
        }) + seq![(e.command_line_key_spec(), Rect { x: 0, y: (size.height - 2) as usize, width: size.width, height: 2 })],
        ViewRef::VStack(s) => stack_rects(
            s.view_keys_spec(),
            0,
            size.width as int,
            size.height as int,
            share(size.height as int, s.view_keys_spec().len() as int),
            0,
        ),
        _ => Seq::empty(),
    }
}

impl ViewRef {
    /// Lays the view out in a window of `size`; gives its child views and
    /// their rectangles, relative to the window.
    pub fn layout(&mut self, size: Size) -> (children: Vec<(ViewKey, Rect)>)
        requires
            old(self).wf(),
            layout_ok(*old(self), size),
        ensures
            children@ == children_of(*old(self), size),
            final(self).wf(),
            final(self).key_spec() == old(self).key_spec(),
            *final(self) == laid_out(*old(self), size),
    {
        match self {
            ViewRef::Doc(d) => d.layout(size),
            ViewRef::CommandLine(c) => c.layout(size),
            ViewRef::Editor(e) => e.layout(size),
            ViewRef::VStack(v) => v.layout(size),
        }
    }
}

impl ViewMap {
    /// Lays the view under `vk` out in a window of `size` (see
    /// `ViewRef::layout`).
    pub fn layout_view(&mut self, vk: ViewKey, size: Size) -> (children: Vec<(ViewKey, Rect)>)
        requires
            old(self).wf(),
            old(self).has(vk),
            layout_ok(old(self).view_at(vk), size),
        ensures
            children@ == children_of(old(self).view_at(vk), size),
            final(self).view_at(vk) == laid_out(old(self).view_at(vk), size),
            final(self).wf(),
            final(self).entries().len() == old(self).entries().len(),
            forall|i: int| 0 <= i < old(self).entries().len() ==> (#[trigger] final(self).entries()[i]).0 == old(self).entries()[i].0
                && final(self).entries()[i].2 == old(self).entries()[i].2,
            forall|i: int| 0 <= i < old(self).entries().len() && i != slot(old(self).entries(), vk) ==> #[trigger] final(self).entries()[i] == old(self).entries()[i],
            final(self).names() == old(self).names(),
            final(self).focus() == old(self).focus(),
            final(self).next_key_spec() == old(self).next_key_spec(),
            final(self).root() == old(self).root(),
    {
        let ghost orig = *self;
        let (i, e) = self.take_out(vk);
        let (k, view, parent) = e;
        let mut view = view;
        proof {
            assert(orig.entries()[i as int].1.wf());
            assert(orig.entries()[i as int].1.key_spec() == orig.entries()[i as int].0);
        }
        let children = view.layout(size);
        self.put_back(i, (k, view, parent), Ghost(orig));
        proof {
            assert(self.entries()[i as int].0 == vk);
            lemma_slot(self.entries(), vk, i as int);
        }
        children
    }
}


/// The focused view can describe itself to the command line: it is a
/// document view (whose cursor fits one more column and row) or the command
/// line.
pub open spec fn focus_describable(m: ViewMap) -> bool {
    &&& m.focus().len() > 0
    &&& match m.view_at(m.focus().last()) {
        ViewRef::Doc(d) => d.cursor_spec().x < usize::MAX && d.cursor_spec().y < usize::MAX,
        ViewRef::CommandLine(_) => true,
        _ => false,
    }
}

/// Whether the focused view's document changed: a document view's flag,
/// else false.
pub open spec fn focus_dirty(m: ViewMap) -> bool {
    match m.view_at(m.focus().last()) {
        ViewRef::Doc(d) => d.doc_spec().is_dirty_spec(),
        _ => false,
    }
}

/// The focused view's file name, if it is a document view with one.
pub open spec fn focus_filename(m: ViewMap) -> Option<Seq<char>> {
    match m.view_at(m.focus().last()) {
        ViewRef::Doc(d) => match d.doc_spec().filename() {
            Some(f) => Some(f@),
            None => None,
        },
        _ => None,
    }
}

/// The focused view's status text, if it is a document view.
pub open spec fn focus_status(m: ViewMap) -> Option<Seq<char>> {
    match m.view_at(m.focus().last()) {
        ViewRef::Doc(d) => Some(status_text(d.mode_spec(), d.cursor_spec())),
        _ => None,
    }
}

/// The view under `vk` can be drawn into `frame`.
pub open spec fn display_view_ok(m: ViewMap, vk: ViewKey, frame: Rect) -> bool {
    match m.view_at(vk) {
        ViewRef::Doc(d) => display_ok(d, frame),
        ViewRef::CommandLine(_) => frame.height == 2 && frame.width + 2 <= usize::MAX && focus_describable(m),
        _ => true,
    }
}

/// What drawing the view under `vk` leaves of `gs`, a `w`-wide grid, in
/// `frame`: a document view draws its rows; the command line draws what the
/// focused view tells of itself; other views draw nothing.
pub open spec fn view_drawn(m: ViewMap, vk: ViewKey, gs: Seq<Glyph>, frame: Rect, w: int, message_live: bool) -> Seq<Glyph> {
    match m.view_at(vk) {
        ViewRef::Doc(d) => doc_drawn(d, gs, frame, w),
        ViewRef::CommandLine(c) => command_line_drawn(
            gs,
            frame,
            w,
            focus_dirty(m),
            focus_filename(m),
            c.shown_message(message_live),
            focus_status(m),
            if m.focus().last() == vk {
                Some(c.text_spec())
            } else {
                None
            },
        ),
        _ => gs,
    }
}

impl ViewMap {
    /// Shows the file `filename`, which holds `lines`, in the document view
    /// under `vk`.
    pub fn open_doc(&mut self, vk: ViewKey, filename: String, lines: &Vec<String>) -> (r: Result<Status, Error>)
        requires
            old(self).wf(),
            old(self).has(vk),
            old(self).view_at(vk) is Doc,
        ensures
            exists|nv: ViewRef|
                replaced_view(*old(self), *final(self), vk, nv) && (nv matches ViewRef::Doc(d) && {
                    &&& rows_view(d.rows()) == lines@.map_values(|l: String| l@)
                    &&& d.doc_spec().filename() == Some(filename)
                    &&& !d.doc_spec().is_dirty_spec()
                    &&& d.doc_spec().history().0.len() == 0
                    &&& d.cursor_spec() == old(self).view_at(vk)->Doc_0.cursor_spec()
                    &&& d.mode_spec() == old(self).view_at(vk)->Doc_0.mode_spec()
                }),
            r matches Ok(Status::Message { message, duration_ms }) && message@ == "Opened '"@ + filename@ + "'."@
                && duration_ms == 2000,
    {
        let ghost orig = *self;
        let (i, e) = self.take_out(vk);
        let (k, view, parent) = e;
        let mut view = view;
        proof {
            assert(orig.entries()[i as int].1.wf());
            assert(orig.entries()[i as int].1.key_spec() == orig.entries()[i as int].0);
        }
        let r = match &mut view {
            ViewRef::Doc(d) => d.open(filename, lines),
            _ => {
                proof {
                    assert(false);
                }
                Ok(Status::Success)
            },
        };
        let ghost nv = view;
        self.put_back(i, (k, view, parent), Ghost(orig));
        assert(replaced_view(orig, *self, vk, nv));
        r
    }

    /// What the focused view tells the command line: whether its document
    /// changed, its file name, its status text.
    fn focus_properties(&self) -> (r: (bool, Option<String>, Option<String>))
        requires
            self.wf(),
            focus_describable(*self),
        ensures
            r.0 == focus_dirty(*self),
            opt_string(r.1) == focus_filename(*self),
            opt_string(r.2) == focus_status(*self),
    {
        let v = self.focused_view();
        match v {
            ViewRef::Doc(d) => {
                proof {
                    reveal_strlit("doc-is-modified");
                    reveal_strlit("doc-filename");
                    reveal_strlit("docview-status");
                }
                let dirty = match d.get_property(PROP_DOC_IS_MODIFIED) {
                    Some(Variant::Bool(b)) => b,
                    _ => false,
                };
                let filename = match d.get_property(PROP_DOC_FILENAME) {
                    Some(Variant::String(f)) => Some(f),
                    _ => None,
                };
                let status = match d.get_property(PROP_DOCVIEW_STATUS) {
                    Some(Variant::String(t)) => Some(t),
                    _ => None,
                };
                (dirty, filename, status)
            },
            _ => (false, None, None),
        }
    }

    /// Draws the view under `vk` into `bmp` (see `view_drawn`);
    /// `message_live` tells whether the command line's status message is
    /// still to be shown.
    pub fn display_view(&self, vk: ViewKey, bmp: &mut BitmapView, message_live: bool)
        requires
            self.wf(),
            self.has(vk),
            old(bmp).fits(),
            display_view_ok(*self, vk, old(bmp).frame),
        ensures
            final(bmp).fits(),
            final(bmp).frame == old(bmp).frame,
            *final(final(bmp).bitmap) == *final(old(bmp).bitmap),
            same_but_glyphs(*final(bmp).bitmap, *old(bmp).bitmap),
            final(bmp).bitmap.glyphs_spec() == view_drawn(
                *self,
                vk,
                old(bmp).bitmap.glyphs_spec(),
                old(bmp).frame,
                old(bmp).bitmap.size_spec().width as int,
                message_live,
            ),
    {
        let v = self.get_view(vk);
        match v {
            ViewRef::Doc(d) => d.display(bmp),
            ViewRef::CommandLine(c) => {
                let (dirty, filename, status) = self.focus_properties();
                let focused = self.focused_view_key() == vk;
                let f = match &filename {
                    Some(f) => Some(f.as_str()),
                    None => None,
                };
                let t = match &status {
                    Some(t) => Some(t.as_str()),
                    None => None,
                };
                proof {
                    assert(opt_view(f) == focus_filename(*self));
                    assert(opt_view(t) == focus_status(*self));
                }
                c.display(bmp, focused, dirty, f, t, message_live);
            },
            _ => {},
        }
    }

    /// Where the focused view shows its cursor, if anywhere.
    pub fn focused_cursor(&self) -> (p: Option<Pos>)
        requires
            self.wf(),
            self.focus().len() > 0,
            cursor_ok(self.view_at(self.focus().last())),
        ensures
            p == cursor_of(self.view_at(self.focus().last())),
    {
        match self.focused_view() {
            ViewRef::Doc(d) => d.get_cursor_pos(),
            ViewRef::CommandLine(c) => c.get_cursor_pos(),
            _ => None,
        }
    }
}

/// The characters of a string, where there is one.
pub open spec fn opt_string(o: Option<String>) -> Option<Seq<char>> {
    match o {
        Some(s) => Some(s@),
        None => None,
    }
}

/// A view can tell where it shows the cursor: a document view scrolled so
/// that the cursor shows, or the command line with room for one more
/// column.
pub open spec fn cursor_ok(v: ViewRef) -> bool {
    match v {
        ViewRef::Doc(d) => d.scroll_spec().x <= d.render_x_spec() && d.scroll_spec().y <= d.cursor_spec().y,
        ViewRef::CommandLine(c) => c.cursor_spec() < usize::MAX,
        _ => false,
    }
}

/// Where a view shows its cursor.
pub open spec fn cursor_of(v: ViewRef) -> Option<Pos> {
    match v {
        ViewRef::Doc(d) => Some(Pos {
            x: (d.render_x_spec() - d.scroll_spec().x) as usize,
            y: (d.cursor_spec().y - d.scroll_spec().y) as usize,
        }),
        ViewRef::CommandLine(c) => Some(Pos { x: (1 + c.cursor_spec() - c.scroll_spec()) as usize, y: 1 }),
        _ => None,
    }
}

} // verus!

verus! {

/// The names under which the editor and its command line are registered.
pub open spec fn editor_name() -> Seq<char> {
    seq!['e', 'd', 'i', 't', 'o', 'r']
}

pub open spec fn command_line_name() -> Seq<char> {
    seq!['c', 'o', 'm', 'm', 'a', 'n', 'd', '-', 'l', 'i', 'n', 'e']
}

/// The views whose keys lie outside `from .. from + count` are those of
/// `old`, with the same parents.
pub open spec fn keeps_views_outside(old: ViewMap, new: ViewMap, from: int, count: int) -> bool {
    forall|k: ViewKey| k.0 < from || k.0 >= from + count ==> {
        &&& #[trigger] new.has(k) == old.has(k)
        &&& old.has(k) ==> new.view_at(k) == old.view_at(k)
        &&& old.has(k) ==> new.parent(k) == old.parent(k)
    }
}

impl Editor {
    /// Registers in `view_map` an editor that shows an empty document view
    /// above a command line, focuses the document view and makes the
    /// editor the root; returns the editor's key. The command line, the
    /// editor and the document view take the next three keys, in that
    /// order.
    #[verifier::spinoff_prover]
    #[verifier::rlimit(40)]
    pub fn install(plugin: PluginRef, view_map: &mut ViewMap) -> (vk: ViewKey)
        requires
            old(view_map).wf(),
            old(view_map).next_key_spec() + 3 <= usize::MAX,
            name_slot(old(view_map).names(), editor_name()) < 0,
            name_slot(old(view_map).names(), command_line_name()) < 0,
        ensures
            ({
                let n = old(view_map).next_key_spec();
                let ck = ViewKey(n);
                let ek = ViewKey((n + 1) as usize);
                let dk = ViewKey((n + 2) as usize);
                &&& vk == ek
                &&& final(view_map).wf()
                &&& final(view_map).next_key_spec() == n + 3
                &&& final(view_map).has(ek) && final(view_map).has(dk) && final(view_map).has(ck)
                &&& final(view_map).view_at(ek) matches ViewRef::Editor(e) && {
                    &&& e.view_key_spec() == ek
                    &&& e.top_view_key_spec() == Some(dk)
                    &&& e.command_line_key_spec() == ck
                    &&& !e.should_quit_spec()
                    &&& e.last_key_spec() is None
                }
                &&& final(view_map).view_at(dk) matches ViewRef::Doc(d) && {
                    &&& d.key_spec() == dk
                    &&& d.cursor_spec() == (Pos { x: 0, y: 0 })
                    &&& d.mode_spec() == Mode::Normal
                    &&& d.rows().len() == 1 && d.rows()[0]@.len() == 0
                }
                &&& final(view_map).view_at(ck) matches ViewRef::CommandLine(c) && {
                    &&& c.view_key_spec() == ck
                    &&& c.text_spec().len() == 0
                    &&& c.status_spec() is Success
                }
                &&& final(view_map).parent(ek) is None
                &&& final(view_map).parent(dk) == Some(ek)
                &&& final(view_map).parent(ck) == Some(ek)
                &&& final(view_map).names() == old(view_map).names().push((editor_name(), ek)).push((command_line_name(), ck))
                &&& final(view_map).focus() == without(old(view_map).focus(), dk).push(dk)
                &&& final(view_map).root() == Some(ek)
            }),
            keeps_views_outside(*old(view_map), *final(view_map), old(view_map).next_key_spec() as int, 3),
    {
        let command_line_key = view_map.get_next_key();
        let command_line = ViewRef::CommandLine(CommandLine::new(plugin.clone(), command_line_key));
        let editor_view_key = view_map.get_next_key();
        let doc_key = view_map.get_next_key();
        let docview = ViewRef::Doc(DocView::new(doc_key, plugin.clone()));
        let focused_view_key = docview.get_view_key();
        let slf = Editor::new(plugin, editor_view_key, Some(focused_view_key), command_line_key);
        let vk = slf.get_view_key();
        let editor_str = "editor".to_owned();
        let command_line_str = "command-line".to_owned();
        proof {
            reveal_strlit("editor");
            reveal_strlit("command-line");
            assert(editor_str@ =~= editor_name());
            assert(command_line_str@ =~= command_line_name());
        }
        let ghost m0 = *view_map;
        view_map.insert(vk, ViewRef::Editor(slf), None, Some(editor_str));
        proof {
            let ns = view_map.names();
            if name_slot(ns, command_line_name()) >= 0 {
                let c = name_slot(ns, command_line_name());
                assert(ns[c].0 == command_line_name());
                if c < m0.names().len() {
                    assert(m0.names()[c].0 == command_line_name());
                    assert(name_slot(m0.names(), command_line_name()) >= 0);
                } else {
                    assert(ns[c].0 == editor_name());
                    assert(editor_name()[0] != command_line_name()[0]);
                }
            }
        }
        let ghost m1 = *view_map;
        view_map.insert(focused_view_key, docview, Some(editor_view_key), None);
        let ghost m2 = *view_map;
        view_map.insert(command_line_key, command_line, Some(editor_view_key), Some(command_line_str));
        let ghost m3 = *view_map;
        view_map.set_focused_view(focused_view_key);
        view_map.set_root_view_key(editor_view_key);
        proof {
            let n = old(view_map).next_key_spec();
            assert(command_line_key == ViewKey(n));
            assert(editor_view_key == ViewKey((n + 1) as usize));
            assert(focused_view_key == ViewKey((n + 2) as usize));
            assert(view_map.entries() == m3.entries());
            let ek = editor_view_key;
            let dk = focused_view_key;
            let ck = command_line_key;
            assert(m1.has(ek) && m1.view_at(ek) == m1.view_at(ek));
            assert(m2.has(ek) == m1.has(ek));
            assert(m3.has(ek) == m2.has(ek));
            assert(m3.has(dk) == m2.has(dk));
            assert(m3.view_at(ek) == m1.view_at(ek));
            assert(m3.view_at(dk) == m2.view_at(dk));
            assert(m3.parent(ek) == m1.parent(ek));
            assert(m3.parent(dk) == m2.parent(dk));
            assert forall|k: ViewKey| k.0 < n || k.0 >= n + 3 implies {
                &&& #[trigger] view_map.has(k) == old(view_map).has(k)
                &&& old(view_map).has(k) ==> view_map.view_at(k) == old(view_map).view_at(k)
                &&& old(view_map).has(k) ==> view_map.parent(k) == old(view_map).parent(k)
            } by {
                assert(m3.has(k) == m2.has(k));
                assert(m2.has(k) == m1.has(k));
                assert(m1.has(k) == m0.has(k));
                assert(m0.entries() == old(view_map).entries());
                if old(view_map).has(k) {
                    assert(m1.view_at(k) == m0.view_at(k) && m1.parent(k) == m0.parent(k));
                    assert(m2.view_at(k) == m1.view_at(k) && m2.parent(k) == m1.parent(k));
                    assert(m3.view_at(k) == m2.view_at(k) && m3.parent(k) == m2.parent(k));
                    assert(view_map.view_at(k) == m3.view_at(k));
                    assert(view_map.parent(k) == m3.parent(k));
                }
            }
            assert(keeps_views_outside(*old(view_map), *view_map, n as int, 3));
        }
        vk
    }

    /// Shows `status` on the command line (the view named "command-line").
    pub fn set_status(&self, view_map: &mut ViewMap, status: Status)
        requires
            old(view_map).wf(),
            name_slot(old(view_map).names(), command_line_name()) >= 0,
        ensures
            status_set(*old(view_map), *final(view_map), status),
    {
        proof {
            reveal_strlit("command-line");
            assert("command-line"@ =~= command_line_name());
        }
        let vk = view_map.named_key("command-line").unwrap();
        let ghost orig = *view_map;
        proof {
            let c = name_slot(orig.names(), command_line_name());
            assert(orig.has(orig.names()[c].1));
        }
        let (i, e) = view_map.take_out(vk);
        let (k, view, parent) = e;
        let mut view = view;
        proof {
            assert(orig.entries()[i as int].1.wf());
            assert(orig.entries()[i as int].1.key_spec() == orig.entries()[i as int].0);
        }
        view.set_status(status);
        let ghost nv = view;
        view_map.put_back(i, (k, view, parent), Ghost(orig));
        assert(replaced_view(orig, *view_map, vk, nv));
    }

    /// Shows the status of a successful result on the command line; hands
    /// an error back.
    pub fn eat_status_result(&self, view_map: &mut ViewMap, result: Result<Status, Error>) -> (r: Result<(), Error>)
        requires
            old(view_map).wf(),
            name_slot(old(view_map).names(), command_line_name()) >= 0,
        ensures
            match result {
                Ok(status) => r is Ok && status_set(*old(view_map), *final(view_map), status),
                Err(e) => r == Err::<(), Error>(e) && *final(view_map) == *old(view_map),
            },
    {
        match result {
            Ok(status) => {
                self.set_status(view_map, status);
                Ok(())
            },
            Err(error) => Err(error),
        }
    }
}

/// What showing `status` on the command line does: the view named
/// "command-line" gets `status` (when it is a command line), nothing else
/// changes.
pub open spec fn status_set(old: ViewMap, new: ViewMap, status: Status) -> bool {
    let vk = old.names()[name_slot(old.names(), command_line_name())].1;
    exists|nv: ViewRef| #[trigger] replaced_view(old, new, vk, nv) && match old.view_at(vk) {
        ViewRef::CommandLine(c) => nv matches ViewRef::CommandLine(d) && {
            &&& d.status_spec() == status
            &&& d.view_key_spec() == c.view_key_spec()
            &&& d.cursor_spec() == c.cursor_spec()
            &&& d.scroll_spec() == c.scroll_spec()
            &&& d.text_spec() == c.text_spec()
        },
        v => nv == v,
    }
}

} // verus!

verus! {

impl ViewRef {
    /// Whether the view can be laid out in a window of `size` (see
    /// `layout_ok`).
    pub fn layout_is_ok(&self, size: Size) -> (b: bool)
        ensures
            b == layout_ok(*self, size),
    {
        match self {
            ViewRef::Doc(d) => d.layout_is_ok(size),
            ViewRef::CommandLine(_) => true,
            ViewRef::Editor(_) => size.height >= 2,
            ViewRef::VStack(s) => s.key_count() > 0 && size.height <= usize::MAX - size.height,
        }
    }

    /// The child views, and their rectangles, that laying the view out in a
    /// window of `size` gives, without laying it out.
    pub fn layout_children(&self, size: Size) -> (children: Vec<(ViewKey, Rect)>)
        requires
            layout_ok(*self, size),
        ensures
            children@ == children_of(*self, size),
    {
        match self {
            ViewRef::Editor(e) => e.layout_children(size),
            ViewRef::VStack(s) => s.layout_children(size),
            _ => Vec::new(),
        }
    }

    /// Whether the view can tell where it shows the cursor (see
    /// `cursor_ok`).
    pub fn cursor_is_ok(&self) -> (b: bool)
        ensures
            b == cursor_ok(*self),
    {
        match self {
            ViewRef::Doc(d) => d.cursor_is_shown(),
            ViewRef::CommandLine(c) => c.cursor_has_room(),
            _ => false,
        }
    }
}

impl ViewMap {
    /// Whether the views from the focused one up to the root form a chain
    /// (see `focus_chain_ok`).
    pub fn focus_chain_is_ok(&self) -> (b: bool)
        requires
            self.wf(),
        ensures
            b == focus_chain_ok(*self),
    {
        if self.previous_views.len() == 0 {
            return false;
        }
        let ghost total = self.entries().len() as nat;
        let ghost k0 = self.focus().last();
        let mut k = self.focused_view_key();
        let mut fuel: usize = self.map.len();
        while fuel > 0
            invariant
                self.wf(),
                self.focus().len() > 0,
                k0 == self.focus().last(),
                total == self.entries().len(),
                (chain(*self, k0, total) is Some) == (chain(*self, k, fuel as nat) is Some),
            decreases fuel,
        {
            if !self.contains(k) {
                assert(chain(*self, k, fuel as nat) is None);
                return false;
            }
            match self.parent_of(k) {
                None => {
                    assert(chain(*self, k, fuel as nat) == Some(seq![k]));
                    return true;
                },
                Some(p) => {
                    assert((chain(*self, k, fuel as nat) is Some) == (chain(*self, p, (fuel - 1) as nat) is Some));
                    k = p;
                    fuel = fuel - 1;
                },
            }
        }
        assert(chain(*self, k, 0) is None);
        false
    }

    /// Whether the view under `vk` can be drawn into `frame` (see
    /// `display_view_ok`).
    pub fn display_view_is_ok(&self, vk: ViewKey, frame: Rect) -> (b: bool)
        requires
            self.wf(),
            self.has(vk),
        ensures
            b == display_view_ok(*self, vk, frame),
    {
        match self.get_view(vk) {
            ViewRef::Doc(d) => d.display_is_ok(frame),
            ViewRef::CommandLine(_) => {
                if frame.height != 2 || frame.width > usize::MAX - 2 || self.previous_views.len() == 0 {
                    return false;
                }
                match self.focused_view() {
                    ViewRef::Doc(d) => d.cursor_has_room(),
                    ViewRef::CommandLine(_) => true,
                    _ => false,
                }
            },
            _ => true,
        }
    }

    /// Whether `vk` is among the keys of `done`.
    fn is_laid(done: &Vec<(ViewKey, Rect)>, vk: ViewKey) -> (b: bool)
        ensures
            b == laid_keys(done@).contains(vk),
    {
        let mut i: usize = 0;
        while i < done.len()
            invariant
                i <= done@.len(),
                forall|j: int| 0 <= j < i ==> done@[j].0 != vk,
            decreases done@.len() - i,
        {
            if done[i].0 == vk {
                assert(laid_keys(done@)[i as int] == vk);
                return true;
            }
            i = i + 1;
        }
        proof {
            if laid_keys(done@).contains(vk) {
                let j = choose|j: int| 0 <= j < laid_keys(done@).len() && laid_keys(done@)[j] == vk;
                assert(done@[j].0 == vk);
            }
        }
        false
    }

    /// Lays out, in `done`, what `layout_result` gives, as far as it goes;
    /// tells whether it gives anything.
    fn layout_check(&self, vk: ViewKey, rect: Rect, done: &mut Vec<(ViewKey, Rect)>, fuel: u128) -> (b: bool)
        requires
            self.wf(),
        ensures
            b == layout_result(*self, vk, rect, old(done)@, fuel as nat) is Some,
            b ==> final(done)@ == layout_result(*self, vk, rect, old(done)@, fuel as nat).unwrap(),
        decreases fuel,
    {
        if fuel == 0 || !self.contains(vk) || Self::is_laid(done, vk) {
            return false;
        }
        let v = self.get_view(vk);
        let size = Size { width: rect.width, height: rect.height };
        if !v.layout_is_ok(size) {
            return false;
        }
        let ghost f = (fuel - 1) as nat;
        done.push((vk, rect));
        let cs = v.layout_children(size);
        let ghost whole = children_result(*self, cs@, rect, done@, f);
        assert(cs@.skip(0) =~= cs@);
        let mut i: usize = 0;
        while i < cs.len()
            invariant
                self.wf(),
                i <= cs@.len(),
                fuel >= 1,
                f == fuel - 1,
                whole == layout_result(*self, vk, rect, old(done)@, fuel as nat),
                children_result(*self, cs@.skip(i as int), rect, done@, f) == whole,
            decreases cs@.len() - i,
        {
            let (c, cr) = cs[i];
            proof {
                let rest = cs@.skip(i as int);
                assert(rest[0] == (c, cr));
                assert(rest.drop_first() =~= cs@.skip(i + 1));
            }
            if cr.x > usize::MAX - rect.x || cr.y > usize::MAX - rect.y {
                return false;
            }
            let r2 = cr.add(Pos { x: rect.x, y: rect.y });
            if !self.layout_check(c, r2, done, fuel - 1) {
                return false;
            }
            i = i + 1;
        }
        true
    }

    /// Whether laying out the view under `vk` in `rect`, after `done`, and
    /// its children goes through (see `recursive_layout`).
    pub fn layout_fits(&self, vk: ViewKey, rect: Rect, done: &Vec<(ViewKey, Rect)>) -> (b: bool)
        requires
            self.wf(),
        ensures
            b == layout_result(*self, vk, rect, done@, (self.entries().len() + 1) as nat) is Some,
    {
        let mut scratch: Vec<(ViewKey, Rect)> = Vec::new();
        let mut i: usize = 0;
        while i < done.len()
            invariant
                i <= done@.len(),
                scratch@ == done@.take(i as int),
            decreases done@.len() - i,
        {
            scratch.push(done[i]);
            i = i + 1;
            assert(scratch@ =~= done@.take(i as int));
        }
        assert(done@.take(i as int) =~= done@);
        let fuel: u128 = self.map.len() as u128 + 1;
        self.layout_check(vk, rect, &mut scratch, fuel)
    }
}

} // verus!

verus! {

/// A view can answer for `property`: a document view whose cursor leaves
/// room for one more column and row, the command line, or the editor
/// asked whether it should quit.
pub open spec fn property_ok(v: ViewRef, property: Seq<char>) -> bool {
    match v {
        ViewRef::Doc(d) => d.cursor_spec().x < usize::MAX && d.cursor_spec().y < usize::MAX,
        ViewRef::CommandLine(_) => true,
        ViewRef::Editor(_) => property == PROP_EDITOR_SHOULD_QUIT@,
        ViewRef::VStack(_) => false,
    }
}

/// `v` is what the view gives for `property` (see `DocView::get_property`;
/// the command line has no properties; the editor tells whether it should
/// quit).
pub open spec fn property_answers(view: ViewRef, property: Seq<char>, v: Option<Variant>) -> bool {
    match view {
        ViewRef::Doc(d) => {
            &&& property == PROP_DOC_IS_MODIFIED@ ==> v == Some(Variant::Bool(d.doc_spec().is_dirty_spec()))
            &&& property == PROP_DOC_FILENAME@ ==> match d.doc_spec().filename() {
                Some(f) => (v matches Some(Variant::String(t)) && t@ == f@),
                None => v is None,
            }
            &&& property == PROP_DOCVIEW_CURSOR_POS@ ==> v == Some(Variant::Pos(d.cursor_spec()))
            &&& property == PROP_DOCVIEW_STATUS@ ==> (v matches Some(Variant::String(t)) && t@ == status_text(
                d.mode_spec(),
                d.cursor_spec(),
            ))
            &&& !(property == PROP_DOC_IS_MODIFIED@ || property == PROP_DOC_FILENAME@ || property == PROP_DOCVIEW_CURSOR_POS@
                || property == PROP_DOCVIEW_STATUS@) ==> v is None
        },
        ViewRef::CommandLine(_) => v is None,
        ViewRef::Editor(e) => v == Some(Variant::Bool(e.should_quit_spec())),
        ViewRef::VStack(_) => false,
    }
}

impl ViewRef {
    /// The value of a property of the view (see `DocView::get_property`;
    /// the command line has none; the editor tells whether it should quit).
    pub fn get_property(&self, property: &str) -> (v: Option<Variant>)
        requires
            property_ok(*self, property@),
        ensures
            property_answers(*self, property@, v),
    {
        match self {
            ViewRef::Doc(d) => d.get_property(property),
            ViewRef::CommandLine(c) => c.get_property(property),
            ViewRef::Editor(e) => e.get_property(property),
            ViewRef::VStack(_) => None,
        }
    }

    /// The property as a flag, or `default` where it is no flag.
    pub fn get_property_bool(&self, property: &str, default: bool) -> (b: bool)
        requires
            property_ok(*self, property@),
        ensures
            exists|v: Option<Variant>| {
                &&& #[trigger] property_answers(*self, property@, v)
                &&& b == match v {
                    Some(Variant::Bool(x)) => x,
                    _ => default,
                }
            },
    {
        match self.get_property(property) {
            Some(Variant::Bool(b)) => b,
            _ => default,
        }
    }

    /// The property as text, where it is text.
    pub fn get_property_string(&self, property: &str) -> (s: Option<String>)
        requires
            property_ok(*self, property@),
        ensures
            exists|v: Option<Variant>| {
                &&& #[trigger] property_answers(*self, property@, v)
                &&& s == match v {
                    Some(Variant::String(t)) => Some(t),
                    _ => None,
                }
            },
    {
        match self.get_property(property) {
            Some(Variant::String(t)) => Some(t),
            _ => None,
        }
    }

    /// The property as a position, where it is one.
    pub fn get_property_pos(&self, property: &str) -> (p: Option<Pos>)
        requires
            property_ok(*self, property@),
        ensures
            exists|v: Option<Variant>| {
                &&& #[trigger] property_answers(*self, property@, v)
                &&& p == match v {
                    Some(Variant::Pos(q)) => Some(q),
                    _ => None,
                }
            },
    {
        match self.get_property(property) {
            Some(Variant::Pos(q)) => Some(q),
            _ => None,
        }
    }
}

} // verus!
