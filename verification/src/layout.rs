use vstd::prelude::*;
use crate::types::{Pos, Rect, Size};
use crate::view::ViewKey;
use crate::view_map::{children_of, laid_out, layout_ok, slot, ViewMap};

verus! {

/// The keys laid out so far.
pub open spec fn laid_keys(done: Seq<(ViewKey, Rect)>) -> Seq<ViewKey> {
    done.map_values(|e: (ViewKey, Rect)| e.0)
}

/// The size of a rectangle.
pub open spec fn size_of(r: Rect) -> Size {
    Size { width: r.width, height: r.height }
}

/// `r` moved by the top-left corner of `origin` fits in `usize`.
pub open spec fn shift_ok(r: Rect, origin: Rect) -> bool {
    r.x + origin.x <= usize::MAX && r.y + origin.y <= usize::MAX
}

/// `r`, relative to `origin`, in absolute coordinates.
pub open spec fn shifted(r: Rect, origin: Rect) -> Rect {
    Rect { x: (r.x + origin.x) as usize, y: (r.y + origin.y) as usize, width: r.width, height: r.height }
}

/// The rectangles laid out after laying `vk` out in `rect` (absolute)
/// after `done`, then its children depth first; `None` where that stops
/// the editor: a view is missing, is laid out twice, or cannot take its
/// rectangle.
pub open spec fn layout_result(m: ViewMap, vk: ViewKey, rect: Rect, done: Seq<(ViewKey, Rect)>, fuel: nat) -> Option<
    Seq<(ViewKey, Rect)>,
>
    decreases fuel, 0nat,
{
    if fuel == 0 || !m.has(vk) || laid_keys(done).contains(vk) || !layout_ok(m.view_at(vk), size_of(rect)) {
        None
    } else {
        children_result(m, children_of(m.view_at(vk), size_of(rect)), rect, done.push((vk, rect)), (fuel - 1) as nat)
    }
}

/// The rectangles laid out after laying the children `cs` of a view laid
/// out in `origin` out, one after the other, after `done`.
pub open spec fn children_result(
    m: ViewMap,
    cs: Seq<(ViewKey, Rect)>,
    origin: Rect,
    done: Seq<(ViewKey, Rect)>,
    fuel: nat,
) -> Option<Seq<(ViewKey, Rect)>>
    decreases fuel, cs.len(),
{
    if cs.len() == 0 {
        Some(done)
    } else if !shift_ok(cs[0].1, origin) {
        None
    } else {
        match layout_result(m, cs[0].0, shifted(cs[0].1, origin), done, fuel) {
            Some(d2) => children_result(m, cs.drop_first(), origin, d2, fuel),
            None => None,
        }
    }
}

/// `m` has the keys, parents, names, focus and root of `m0`, and the views
/// not laid out yet are those of `m0`.
pub open spec fn keeps(m: ViewMap, m0: ViewMap, done: Seq<(ViewKey, Rect)>) -> bool {
    &&& m.wf()
    &&& m.entries().len() == m0.entries().len()
    &&& forall|i: int| 0 <= i < m0.entries().len() ==> (#[trigger] m.entries()[i]).0 == m0.entries()[i].0 && m.entries()[i].2
        == m0.entries()[i].2
    &&& forall|i: int| 0 <= i < m0.entries().len() && !laid_keys(done).contains(m0.entries()[i].0) ==> #[trigger] m.entries()[i]
        == m0.entries()[i]
    &&& m.names() == m0.names()
    &&& m.focus() == m0.focus()
    &&& m.next_key_spec() == m0.next_key_spec()
    &&& m.root() == m0.root()
}

/// Where two maps agree on keys, a key's slot is the same in both.
proof fn lemma_keeps_slot(m: ViewMap, m0: ViewMap, done: Seq<(ViewKey, Rect)>, k: ViewKey)
    requires
        m0.wf(),
        keeps(m, m0, done),
    ensures
        slot(m.entries(), k) == slot(m0.entries(), k),
        m.has(k) == m0.has(k),
{
    if m0.has(k) {
        let i = slot(m0.entries(), k);
        assert(m.entries()[i].0 == k);
        let j = slot(m.entries(), k);
        assert(m.entries()[j].0 == m0.entries()[j].0);
        if j != i {
            if j < i {
                assert(m.entries()[j].0 != m.entries()[i].0);
            } else {
                assert(m.entries()[i].0 != m.entries()[j].0);
            }
        }
    } else {
        if m.has(k) {
            let j = slot(m.entries(), k);
            assert(m0.entries()[j].0 == k);
        }
    }
}

/// The views laid out from index `from` of `done` on are registered in
/// `m0`, and `m` holds each as laying it out in its rectangle left it.
pub open spec fn laid_since(m0: ViewMap, m: ViewMap, from: int, done: Seq<(ViewKey, Rect)>) -> bool {
    forall|i: int| from <= i < done.len() ==> {
        &&& m0.has((#[trigger] done[i]).0)
        &&& m.view_at(done[i].0) == laid_out(m0.view_at(done[i].0), size_of(done[i].1))
    }
}

/// The views of `prev` that `done` lays out are as they were in `m`.
pub open spec fn untouched(prev: ViewMap, m: ViewMap, done: Seq<(ViewKey, Rect)>) -> bool {
    forall|j: int| 0 <= j < prev.entries().len() && laid_keys(done).contains((#[trigger] prev.entries()[j]).0) ==> m.entries()[j]
        == prev.entries()[j]
}

/// A key of a prefix of `done` is a key of `done`.
proof fn lemma_laid_prefix(d: Seq<(ViewKey, Rect)>, done: Seq<(ViewKey, Rect)>, k: ViewKey)
    requires
        done.len() >= d.len(),
        done.take(d.len() as int) == d,
        laid_keys(d).contains(k),
    ensures
        laid_keys(done).contains(k),
{
    let i = choose|i: int| 0 <= i < laid_keys(d).len() && laid_keys(d)[i] == k;
    assert(done.take(d.len() as int)[i] == done[i]);
    assert(laid_keys(done)[i] == k);
}

fn layout_rec(
    view_map: &mut ViewMap,
    vk: ViewKey,
    rect: Rect,
    layout_rects: &mut Vec<(ViewKey, Rect)>,
    Ghost(m0): Ghost<ViewMap>,
    Ghost(fuel): Ghost<nat>,
)
    requires
        m0.wf(),
        keeps(*old(view_map), m0, old(layout_rects)@),
        layout_result(m0, vk, rect, old(layout_rects)@, fuel) is Some,
    ensures
        final(layout_rects)@ == layout_result(m0, vk, rect, old(layout_rects)@, fuel).unwrap(),
        keeps(*final(view_map), m0, final(layout_rects)@),
        final(layout_rects)@.len() >= old(layout_rects)@.len(),
        final(layout_rects)@.take(old(layout_rects)@.len() as int) == old(layout_rects)@,
        laid_since(m0, *final(view_map), old(layout_rects)@.len() as int, final(layout_rects)@),
        untouched(*old(view_map), *final(view_map), old(layout_rects)@),
    decreases fuel, 0nat,
{
    let ghost done0 = layout_rects@;
    let ghost ms = *view_map;
    let ghost whole = layout_result(m0, vk, rect, done0, fuel).unwrap();
    proof {
        lemma_keeps_slot(*view_map, m0, done0, vk);
    }
    layout_rects.push((vk, rect));
    let ghost m1 = *view_map;
    proof {
        assert(laid_keys(layout_rects@) =~= laid_keys(done0).push(vk));
        assert(keeps(*view_map, m0, layout_rects@)) by {
            assert forall|i: int| 0 <= i < m0.entries().len() && !laid_keys(layout_rects@).contains(m0.entries()[i].0) implies #[trigger] view_map.entries()[i] == m0.entries()[i] by {
                if laid_keys(done0).contains(m0.entries()[i].0) {
                    let j = choose|j: int| 0 <= j < laid_keys(done0).len() && laid_keys(done0)[j] == m0.entries()[i].0;
                    assert(laid_keys(layout_rects@)[j] == m0.entries()[i].0);
                }
            }
        }
        let i = slot(m0.entries(), vk);
        assert(view_map.entries()[i] == m0.entries()[i]) by {
            if laid_keys(done0).contains(m0.entries()[i].0) {
            }
        }
    }
    let size = Size { width: rect.width, height: rect.height };
    let children = view_map.layout_view(vk, size);
    let ghost m2 = *view_map;
    proof {
        let si = slot(m1.entries(), vk);
        lemma_keeps_slot(m1, m0, done0, vk);
        assert(m1.view_at(vk) == m0.view_at(vk));
        assert(children@.skip(0) =~= children@);
        assert forall|i: int| 0 <= i < m0.entries().len() && !laid_keys(layout_rects@).contains(m0.entries()[i].0) implies #[trigger] view_map.entries()[i] == m0.entries()[i] by {
            if i == si {
                assert(m0.entries()[i].0 == vk);
                assert(laid_keys(layout_rects@)[done0.len() as int] == vk);
            } else {
                assert(view_map.entries()[i] == m1.entries()[i]);
            }
        }
        assert forall|i: int| 0 <= i < m0.entries().len() implies (#[trigger] view_map.entries()[i]).0 == m0.entries()[i].0 && view_map.entries()[i].2 == m0.entries()[i].2 by {
            assert(m1.entries()[i].0 == m0.entries()[i].0);
        }
        assert(layout_rects@.take(done0.len() as int) =~= done0);
        assert(layout_rects@[done0.len() as int] == (vk, rect));
        assert(laid_since(m0, *view_map, done0.len() as int, layout_rects@));
        assert forall|j: int| 0 <= j < ms.entries().len() && laid_keys(done0).contains((#[trigger] ms.entries()[j]).0) implies view_map.entries()[j] == ms.entries()[j] by {
            if j == si {
                lemma_keeps_slot(ms, m0, done0, vk);
                assert(ms.entries()[j].0 == vk);
            }
        }
    }
    let mut i: usize = 0;
    while i < children.len()
        invariant
            m0.wf(),
            i <= children@.len(),
            fuel > 0,
            keeps(*view_map, m0, layout_rects@),
            children_result(m0, children@.skip(i as int), rect, layout_rects@, (fuel - 1) as nat) == Some(whole),
            layout_rects@.len() > done0.len(),
            layout_rects@.take(done0.len() as int) == done0,
            laid_since(m0, *view_map, done0.len() as int, layout_rects@),
            keeps(ms, m0, done0),
            untouched(ms, *view_map, done0),
        decreases children@.len() - i,
    {
        let (c, cr) = children[i];
        proof {
            let cs = children@.skip(i as int);
            assert(cs[0] == (c, cr));
            assert(cs.drop_first() =~= children@.skip(i + 1));
        }
        let r2 = cr.add(Pos { x: rect.x, y: rect.y });
        let ghost d1 = layout_rects@;
        let ghost mp = *view_map;
        layout_rec(view_map, c, r2, layout_rects, Ghost(m0), Ghost((fuel - 1) as nat));
        proof {
            let d2 = layout_rects@;
            assert(d2.take(done0.len() as int) =~= done0) by {
                assert forall|k: int| 0 <= k < done0.len() implies d2.take(done0.len() as int)[k] == done0[k] by {
                    assert(d2.take(d1.len() as int)[k] == d1[k]);
                    assert(d1.take(done0.len() as int)[k] == done0[k]);
                }
            }
            assert forall|k: int| done0.len() <= k < d2.len() implies {
                &&& m0.has((#[trigger] d2[k]).0)
                &&& view_map.view_at(d2[k].0) == laid_out(m0.view_at(d2[k].0), size_of(d2[k].1))
            } by {
                if k < d1.len() {
                    assert(d2.take(d1.len() as int)[k] == d1[k]);
                    assert(d1[k] == d2[k]);
                    let key = d1[k].0;
                    assert(m0.has(key));
                    lemma_keeps_slot(mp, m0, d1, key);
                    lemma_keeps_slot(*view_map, m0, d2, key);
                    let js = slot(m0.entries(), key);
                    assert(laid_keys(d1)[k] == key);
                    assert(mp.entries()[js].0 == key);
                    assert(view_map.entries()[js] == mp.entries()[js]);
                }
            }
            assert forall|j: int| 0 <= j < ms.entries().len() && laid_keys(done0).contains((#[trigger] ms.entries()[j]).0) implies view_map.entries()[j] == ms.entries()[j] by {
                lemma_laid_prefix(done0, d1, ms.entries()[j].0);
                assert(mp.entries()[j] == ms.entries()[j]);
                assert(laid_keys(d1).contains(mp.entries()[j].0));
            }
        }
        i = i + 1;
    }
    assert(children@.skip(i as int).len() == 0);
}

/// Lays out the view under `vk` in `rect` (absolute coordinates), then its
/// children, depth first, each in the rectangle its parent gives it moved
/// by the parent's corner; records each view's rectangle in
/// `layout_rects`.
pub fn recursive_layout(view_map: &mut ViewMap, vk: ViewKey, rect: Rect, layout_rects: &mut Vec<(ViewKey, Rect)>)
    requires
        old(view_map).wf(),
        layout_result(*old(view_map), vk, rect, old(layout_rects)@, (old(view_map).entries().len() + 1) as nat) is Some,
    ensures
        final(layout_rects)@ == layout_result(
            *old(view_map),
            vk,
            rect,
            old(layout_rects)@,
            (old(view_map).entries().len() + 1) as nat,
        ).unwrap(),
        keeps(*final(view_map), *old(view_map), final(layout_rects)@),
        laid_since(*old(view_map), *final(view_map), old(layout_rects)@.len() as int, final(layout_rects)@),
{
    let ghost m0 = *view_map;
    layout_rec(view_map, vk, rect, layout_rects, Ghost(m0), Ghost((m0.entries().len() + 1) as nat));
}

} // verus!
