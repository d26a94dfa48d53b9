use vstd::prelude::*;
use crate::bitmap::{diff_rows, Bitmap, BitmapView};
use crate::buf::{utf8_encode, Buf};
use crate::color::Color;
use crate::format::Format;
use crate::glyph::Glyph;
use crate::key::{decimal, push_decimal_usize};
use crate::layout::{keeps, laid_since, layout_result, recursive_layout};
use crate::text::push_str;
use crate::types::{Pos, Rect, Size};
use crate::view::ViewKey;
use crate::view_map::{cursor_of, cursor_ok, display_view_ok, view_drawn, ViewMap, ViewRef};

verus! {

/// `r` lies inside a grid of `size`.
pub open spec fn fits_in(r: Rect, size: Size) -> bool {
    r.x + r.width <= size.width && r.y + r.height <= size.height
}

/// Every laid-out view is registered, lies inside the grid and can be
/// drawn in its rectangle.
pub open spec fn drawable(m: ViewMap, rects: Seq<(ViewKey, Rect)>, size: Size) -> bool {
    forall|i: int|
        0 <= i < rects.len() ==> {
            &&& m.has((#[trigger] rects[i]).0)
            &&& fits_in(rects[i].1, size)
            &&& display_view_ok(m, rects[i].0, rects[i].1)
        }
}

/// `gs`, a `w`-wide grid, with the laid-out views drawn into it in turn.
pub open spec fn frame_drawn(m: ViewMap, rects: Seq<(ViewKey, Rect)>, gs: Seq<Glyph>, w: int, live: bool) -> Seq<Glyph>
    decreases rects.len(),
{
    if rects.len() == 0 {
        gs
    } else {
        view_drawn(m, rects.last().0, frame_drawn(m, rects.drop_last(), gs, w, live), rects.last().1, w, live)
    }
}

/// Where the terminal's cursor goes: where the focused view shows its
/// cursor, else the bottom-right corner of the editor under `ek`; `None`
/// where there is no editor there, no such corner, or no room to number
/// the position from one.
pub open spec fn screen_cursor(m: ViewMap, ek: ViewKey) -> Option<Pos> {
    if !(m.has(ek) && m.view_at(ek) is Editor) {
        None
    } else {
        let e = m.view_at(ek)->Editor_0;
        let focused = if m.focus().len() > 0 && cursor_ok(m.view_at(m.focus().last())) {
            cursor_of(m.view_at(m.focus().last()))
        } else {
            None
        };
        let p = match focused {
            Some(c) => Some(c),
            None => if e.frame_spec().width >= 1 && e.frame_spec().height >= 1 {
                Some(Pos { x: (e.frame_spec().width - 1) as usize, y: (e.frame_spec().height - 1) as usize })
            } else {
                None
            },
        };
        match p {
            Some(q) => if q.x < usize::MAX && q.y < usize::MAX {
                Some(q)
            } else {
                None
            },
            None => None,
        }
    }
}

/// The escape that moves the terminal's cursor to `p`, counted from one.
pub open spec fn cursor_escape(p: Pos) -> Seq<char> {
    "\x1b["@ + decimal((p.y + 1) as nat) + ";"@ + decimal((p.x + 1) as nat) + "H"@
}

/// What drawing a frame does (see `render_frame`): the views are laid out
/// from the root (`m0` to `m1`); where that goes through and every view can
/// be drawn, the bitmap holds the views drawn over blank cells and the bytes
/// hide the cursor, redraw what changed from `last`, place the cursor and
/// show it.
pub open spec fn rendered(
    m0: ViewMap,
    m1: ViewMap,
    ek: ViewKey,
    frame: Rect,
    b0: Bitmap,
    b1: Bitmap,
    last: Bitmap,
    live: bool,
    r: Option<Buf>,
) -> bool {
    match m0.root() {
        None => r is None,
        Some(root) => match layout_result(m0, root, frame, Seq::empty(), (m0.entries().len() + 1) as nat) {
            None => r is None,
            Some(rects) => {
                &&& keeps(m1, m0, rects)
                &&& laid_since(m0, m1, 0, rects)
                &&& (r is Some <==> drawable(m1, rects, b0.size_spec()) && screen_cursor(m1, ek) is Some)
                &&& r matches Some(buf) ==> {
                    let size = b0.size_spec();
                    let w = size.width as int;
                    let blank = Seq::new((size.width * size.height) as nat, |i: int| b0.default_glyph_spec());
                    let gs = frame_drawn(m1, rects, blank, w, live);
                    &&& b1.wf()
                    &&& b1.size_spec() == size
                    &&& b1.default_glyph_spec() == b0.default_glyph_spec()
                    &&& b1.dirty_spec()
                    &&& b1.glyphs_spec() == gs
                    &&& buf@ == utf8_encode("\x1b[?25l"@) + utf8_encode("\x1b[0m"@) + diff_rows(
                        last.glyphs_spec(),
                        last.dirty_spec(),
                        gs,
                        w,
                        size.height as int,
                        Format { fg: Color::NoColor, bg: Color::NoColor },
                    ).0 + utf8_encode(cursor_escape(screen_cursor(m1, ek).unwrap())) + utf8_encode("\x1b[?25h"@)
                }
            },
        },
    }
}

/// Where the terminal's cursor goes (see `screen_cursor`).
fn find_screen_cursor(view_map: &ViewMap, ek: ViewKey) -> (p: Option<Pos>)
    requires
        view_map.wf(),
    ensures
        p == screen_cursor(*view_map, ek),
{
    if !view_map.contains(ek) {
        return None;
    }
    let e = match view_map.get_view(ek) {
        ViewRef::Editor(e) => e,
        _ => {
            return None;
        },
    };
    let focused = if view_map.focus_count() > 0 && view_map.focused_view().cursor_is_ok() {
        view_map.focused_cursor()
    } else {
        None
    };
    let corner_ok = match focused {
        Some(_) => true,
        None => e.frame_is_nonempty(),
    };
    if !corner_ok {
        return None;
    }
    let q = e.cursor_position(focused);
    if q.x < usize::MAX && q.y < usize::MAX {
        Some(q)
    } else {
        None
    }
}

/// Lays the views out in `frame` from the root, draws them into `bmp`
/// (cleared first) and returns the bytes that bring a screen showing `last`
/// up to date, with the cursor placed; `None` where the views cannot be
/// laid out or drawn (see `rendered`). `message_live` tells whether the
/// command line's status message is still to be shown.
pub fn render_frame(
    view_map: &mut ViewMap,
    editor_key: ViewKey,
    frame: Rect,
    bmp: &mut Bitmap,
    last: &Bitmap,
    message_live: bool,
) -> (r: Option<Buf>)
    requires
        old(view_map).wf(),
        old(bmp).wf(),
        last.wf(),
        last.size_spec() == old(bmp).size_spec(),
        old(bmp).size_spec().width * old(bmp).size_spec().height <= usize::MAX,
    ensures
        final(view_map).wf(),
        rendered(*old(view_map), *final(view_map), editor_key, frame, *old(bmp), *final(bmp), *last, message_live, r),
{
    let root = match view_map.root_view_key() {
        Some(k) => k,
        None => {
            return None;
        },
    };
    let mut rects: Vec<(ViewKey, Rect)> = Vec::new();
    if !view_map.layout_fits(root, frame, &rects) {
        return None;
    }
    let ghost m0 = *view_map;
    let ghost fuel = (m0.entries().len() + 1) as nat;
    assert(rects@ =~= Seq::<(ViewKey, Rect)>::empty());
    recursive_layout(view_map, root, frame, &mut rects);
    let ghost m1 = *view_map;
    let ghost laid = rects@;
    assert(laid == layout_result(m0, root, frame, Seq::empty(), fuel).unwrap());
    let size = bmp.get_size();
    let mut i: usize = 0;
    while i < rects.len()
        invariant
            i <= rects@.len(),
            view_map.wf(),
            size == bmp.size_spec(),
            *view_map == m1,
            *bmp == *old(bmp),
            rects@ == laid,
            m0 == *old(view_map),
            m0.root() == Some(root),
            fuel == (m0.entries().len() + 1) as nat,
            layout_result(m0, root, frame, Seq::empty(), fuel) == Some(laid),
            keeps(m1, m0, laid),
            laid_since(m0, m1, 0, laid),
            forall|j: int|
                0 <= j < i ==> {
                    &&& view_map.has((#[trigger] rects@[j]).0)
                    &&& fits_in(rects@[j].1, size)
                    &&& display_view_ok(*view_map, rects@[j].0, rects@[j].1)
                },
        decreases rects@.len() - i,
    {
        let (vk, r) = rects[i];
        let inside = r.x <= size.width && r.width <= size.width - r.x && r.y <= size.height && r.height <= size.height - r.y;
        proof {
            assert(rects@[i as int] == (vk, r));
        }
        if !inside || !view_map.contains(vk) || !view_map.display_view_is_ok(vk, r) {
            assert(!drawable(m1, laid, size));
            return None;
        }
        i = i + 1;
    }
    assert(drawable(*view_map, rects@, size));
    let cursor = match find_screen_cursor(view_map, editor_key) {
        Some(p) => p,
        None => {
            return None;
        },
    };
    bmp.clear();
    let ghost blank = bmp.glyphs_spec();
    let ghost w = size.width as int;
    let mut k: usize = 0;
    while k < rects.len()
        invariant
            k <= rects@.len(),
            view_map.wf(),
            *view_map == m1,
            rects@ == laid,
            m0 == *old(view_map),
            m0.root() == Some(root),
            fuel == (m0.entries().len() + 1) as nat,
            layout_result(m0, root, frame, Seq::empty(), fuel) == Some(laid),
            keeps(m1, m0, laid),
            laid_since(m0, m1, 0, laid),
            screen_cursor(m1, editor_key) == Some(cursor),
            size == old(bmp).size_spec(),
            bmp.wf(),
            bmp.size_spec() == size,
            bmp.default_glyph_spec() == old(bmp).default_glyph_spec(),
            bmp.dirty_spec(),
            w == size.width,
            drawable(m1, rects@, size),
            bmp.glyphs_spec() == frame_drawn(m1, rects@.take(k as int), blank, w, message_live),
        decreases rects@.len() - k,
    {
        let (vk, r) = rects[k];
        proof {
            assert(rects@[k as int] == (vk, r));
        }
        let ghost before = bmp.glyphs_spec();
        {
            let mut view = BitmapView::new(bmp, r);
            view_map.display_view(vk, &mut view, message_live);
        }
        proof {
            assert(rects@.take(k + 1).drop_last() =~= rects@.take(k as int));
            assert(rects@.take(k + 1).last() == (vk, r));
        }
        k = k + 1;
    }
    assert(rects@.take(k as int) =~= rects@);
    let mut buf = Buf::default();
    buf.append("\x1b[?25l");
    let _ = Bitmap::diff(last, bmp, &mut buf);
    let mut esc = String::new();
    push_str(&mut esc, "\x1b[");
    push_decimal_usize(&mut esc, cursor.y + 1);
    push_str(&mut esc, ";");
    push_decimal_usize(&mut esc, cursor.x + 1);
    push_str(&mut esc, "H");
    buf.append(esc.as_str());
    buf.append("\x1b[?25h");
    Some(buf)
}

} // verus!
