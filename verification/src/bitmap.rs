use vstd::prelude::*;
use crate::buf::{utf8_char, utf8_encode, Buf};
use crate::color::{BgColor, Color};
use crate::error::Error;
use crate::format::Format;
use crate::glyph::{glyph_bytes, Glyph};
use crate::key::{decimal, push_decimal_usize};
use crate::text::{push_str, str_to_chars};
use crate::types::{rect_has, Pos, Rect, Size};

verus! {

/// The bytes of `gs` drawn in turn, starting after format `f`, and the
/// format of the last glyph drawn.
pub open spec fn glyphs_bytes(gs: Seq<Glyph>, f: Format) -> (Seq<u8>, Format)
    decreases gs.len(),
{
    if gs.len() == 0 {
        (Seq::empty(), f)
    } else {
        let (b, f1) = glyphs_bytes(gs.drop_last(), f);
        (b + glyph_bytes(gs.last(), f1), gs.last().format)
    }
}

/// The escape sequence that moves the terminal's cursor to the start of
/// screen row `y` (counted from zero).
pub open spec fn move_to_row(y: nat) -> Seq<char> {
    "\x1b["@ + decimal(y + 1) + ";1H"@
}

/// The glyphs of row `y` of a `w`-wide grid.
pub open spec fn row_of(gs: Seq<Glyph>, y: int, w: int) -> Seq<Glyph> {
    gs.subrange(y * w, (y + 1) * w)
}

/// The bytes that redraw the first `n` rows that changed from `last` to
/// `cur` (every row, when `last` is dirty), and the format they end with.
pub open spec fn diff_rows(
    last: Seq<Glyph>,
    last_dirty: bool,
    cur: Seq<Glyph>,
    w: int,
    n: int,
    f: Format,
) -> (Seq<u8>, Format)
    decreases n,
{
    if n <= 0 {
        (Seq::empty(), f)
    } else {
        let (b, f1) = diff_rows(last, last_dirty, cur, w, n - 1, f);
        let y = n - 1;
        if last_dirty || row_of(last, y, w) != row_of(cur, y, w) {
            let (rb, f2) = glyphs_bytes(row_of(cur, y, w), f1);
            (b + utf8_encode(move_to_row(y as nat)) + rb, f2)
        } else {
            (b, f1)
        }
    }
}

/// A grid of glyphs as wide and high as the screen, and where the cursor is.
#[derive(Debug, Clone)]
pub struct Bitmap {
    size: Size,
    cursor: Option<Pos>,
    glyphs: Vec<Glyph>,
    default_glyph: Glyph,
    pub dirty: bool,
}

proof fn lemma_row_bounds(y: int, w: int, h: int)
    requires
        0 <= y < h,
        0 <= w,
    ensures
        0 <= y * w,
        y * w + w == (y + 1) * w,
        (y + 1) * w <= w * h,
        y * w + w <= w * h,
{
    assert(0 <= y * w) by (nonlinear_arith)
        requires
            0 <= y,
            0 <= w,
    ;
    assert(y * w + w == (y + 1) * w) by (nonlinear_arith);
    assert((y + 1) * w <= w * h) by (nonlinear_arith)
        requires
            y + 1 <= h,
            0 <= w,
    ;
}

impl Bitmap {
    pub closed spec fn size_spec(&self) -> Size {
        self.size
    }

    pub closed spec fn dirty_spec(&self) -> bool {
        self.dirty
    }

    pub closed spec fn cursor_spec(&self) -> Option<Pos> {
        self.cursor
    }

    pub closed spec fn glyphs_spec(&self) -> Seq<Glyph> {
        self.glyphs@
    }

    pub closed spec fn default_glyph_spec(&self) -> Glyph {
        self.default_glyph
    }

    /// One glyph for each cell.
    pub open spec fn wf(&self) -> bool {
        self.glyphs_spec().len() == self.size_spec().width * self.size_spec().height
    }

    /// `n` copies of `g`.
    fn filled(g: Glyph, n: usize) -> (v: Vec<Glyph>)
        ensures
            v@ == Seq::new(n as nat, |i: int| g),
    {
        let mut v: Vec<Glyph> = Vec::new();
        let mut i: usize = 0;
        while i < n
            invariant
                i <= n,
                v@ == Seq::new(i as nat, |k: int| g),
            decreases n - i,
        {
            v.push(g);
            i = i + 1;
            assert(v@ =~= Seq::new(i as nat, |k: int| g));
        }
        v
    }

    /// A dirty bitmap of `size`, every cell `default_glyph`, no cursor.
    pub fn new(size: Size, default_glyph: Glyph) -> (b: Self)
        requires
            size.width * size.height <= usize::MAX,
        ensures
            b.wf(),
            b.size_spec() == size,
            b.cursor_spec() is None,
            b.glyphs_spec() == Seq::new((size.width * size.height) as nat, |i: int| default_glyph),
            b.default_glyph_spec() == default_glyph,
            b.dirty_spec(),
    {
        Bitmap {
            size,
            cursor: None,
            default_glyph,
            glyphs: Self::filled(default_glyph, size.area()),
            dirty: true,
        }
    }

    /// Changes the size and clears the bitmap.
    pub fn resize(&mut self, size: Size)
        requires
            size.width * size.height <= usize::MAX,
        ensures
            final(self).wf(),
            final(self).size_spec() == size,
            final(self).cursor_spec() is None,
            final(self).glyphs_spec() == Seq::new(
                (size.width * size.height) as nat,
                |i: int| old(self).default_glyph_spec(),
            ),
            final(self).default_glyph_spec() == old(self).default_glyph_spec(),
            final(self).dirty_spec(),
    {
        self.size = size;
        self.clear();
    }

    /// Sets every cell to the default glyph, drops the cursor, and marks the
    /// bitmap dirty.
    pub fn clear(&mut self)
        requires
            old(self).size_spec().width * old(self).size_spec().height <= usize::MAX,
        ensures
            final(self).wf(),
            final(self).size_spec() == old(self).size_spec(),
            final(self).cursor_spec() is None,
            final(self).glyphs_spec() == Seq::new(
                (old(self).size_spec().width * old(self).size_spec().height) as nat,
                |i: int| old(self).default_glyph_spec(),
            ),
            final(self).default_glyph_spec() == old(self).default_glyph_spec(),
            final(self).dirty_spec(),
    {
        self.cursor = None;
        self.glyphs = Self::filled(self.default_glyph, self.size.area());
        self.dirty = true;
    }

    pub fn get_cursor(&self) -> (c: Option<Pos>)
        ensures
            c == self.cursor_spec(),
    {
        self.cursor
    }

    pub fn get_size(&self) -> (s: Size)
        ensures
            s == self.size_spec(),
    {
        self.size
    }

    /// The glyph at `pos`.
    pub fn get_glyph(&self, pos: Pos) -> (g: &Glyph)
        requires
            self.wf(),
            pos.x < self.size_spec().width,
            pos.y < self.size_spec().height,
        ensures
            *g == self.glyphs_spec()[pos.x + pos.y * self.size_spec().width],
    {
        proof {
            lemma_row_bounds(pos.y as int, self.size.width as int, self.size.height as int);
            assert(self.glyphs@.len() == self.glyphs.len());
        }
        &self.glyphs[pos.x + pos.y * self.size.width]
    }

    /// Whether row `y` holds the same glyphs in both bitmaps.
    fn rows_equal(a: &Vec<Glyph>, b: &Vec<Glyph>, start: usize, w: usize) -> (r: bool)
        requires
            start + w <= a.len(),
            start + w <= b.len(),
        ensures
            r == (a@.subrange(start as int, start + w) == b@.subrange(start as int, start + w)),
    {
        let mut x: usize = 0;
        while x < w
            invariant
                x <= w,
                start + w <= a.len(),
                start + w <= b.len(),
                forall|k: int| start <= k < start + x ==> a@[k] == b@[k],
            decreases w - x,
        {
            if a[start + x] != b[start + x] {
                assert(a@.subrange(start as int, start + w)[x as int] != b@.subrange(start as int, start + w)[x as int]);
                return false;
            }
            x = x + 1;
        }
        assert(a@.subrange(start as int, start + w) =~= b@.subrange(start as int, start + w));
        true
    }

    /// Writes to `buf` what redraws `bmp` on a screen that shows `bmp_last`:
    /// a reset of the colors, then each row that changed (every row, when
    /// `bmp_last` is dirty), each preceded by a move to its start.
    pub fn diff(bmp_last: &Self, bmp: &Self, buf: &mut Buf) -> (r: Result<(), Error>)
        requires
            bmp_last.wf(),
            bmp.wf(),
            bmp_last.size_spec() == bmp.size_spec(),
            bmp.size_spec().width * bmp.size_spec().height <= usize::MAX,
        ensures
            r is Ok,
            final(buf)@ == old(buf)@ + utf8_encode("\x1b[0m"@) + diff_rows(
                bmp_last.glyphs_spec(),
                bmp_last.dirty_spec(),
                bmp.glyphs_spec(),
                bmp.size_spec().width as int,
                bmp.size_spec().height as int,
                Format { fg: Color::NoColor, bg: Color::NoColor },
            ).0,
    {
        let ghost b0 = buf@;
        buf.append("\x1b[0m");
        let ghost b1 = buf@;
        let mut last_format = Format::none();
        let size = bmp.size;
        let w = size.width;
        let h = size.height;
        let mut y: usize = 0;
        while y < h
            invariant
                y <= h,
                w == bmp.size_spec().width,
                h == bmp.size_spec().height,
                bmp_last.glyphs_spec().len() == w * h,
                bmp.glyphs_spec().len() == w * h,
                w * h <= usize::MAX,
                (buf@, last_format) == ({
                    let (d, f) = diff_rows(
                        bmp_last.glyphs_spec(),
                        bmp_last.dirty_spec(),
                        bmp.glyphs_spec(),
                        w as int,
                        y as int,
                        Format { fg: Color::NoColor, bg: Color::NoColor },
                    );
                    (b1 + d, f)
                }),
            decreases h - y,
        {
            proof {
                lemma_row_bounds(y as int, w as int, h as int);
            }
            let start = y * w;
            let line_changed = bmp_last.dirty || !Self::rows_equal(&bmp_last.glyphs, &bmp.glyphs, start, w);
            let ghost fmt_before = last_format;
            let ghost buf_before = buf@;
            if line_changed {
                let mut s = String::new();
                push_str(&mut s, "\x1b[");
                push_decimal_usize(&mut s, y + 1);
                push_str(&mut s, ";1H");
                buf.append(s.as_str());
                let ghost buf_mid = buf@;
                let mut x: usize = 0;
                while x < w
                    invariant
                        x <= w,
                        start == y * w,
                        start + w <= bmp.glyphs_spec().len(),
                        start + w <= usize::MAX,
                        (buf@, last_format) == ({
                            let (gb, f) = glyphs_bytes(
                                bmp.glyphs_spec().subrange(start as int, start + x),
                                fmt_before,
                            );
                            (buf_mid + gb, f)
                        }),
                    decreases w - x,
                {
                    let glyph: &Glyph = &bmp.glyphs[start + x];
                    let ghost f_prev = last_format;
                    let res = glyph.encode_utf8_to_buf(buf, last_format);
                    last_format = match res {
                        Ok(f) => f,
                        Err(e) => { return Err(e); },
                    };
                    proof {
                        let gs = bmp.glyphs_spec().subrange(start as int, start + x + 1);
                        assert(gs.drop_last() =~= bmp.glyphs_spec().subrange(start as int, start + x));
                        assert(gs.last() == *glyph);
                    }
                    x = x + 1;
                }
                proof {
                    reveal_strlit("");
                    assert(s@ =~= move_to_row(y as nat));
                    assert(row_of(bmp.glyphs_spec(), y as int, w as int) =~= bmp.glyphs_spec().subrange(start as int, start + w));
                    assert(row_of(bmp_last.glyphs_spec(), y as int, w as int) =~= bmp_last.glyphs_spec().subrange(start as int, start + w));
                }
            } else {
                proof {
                    assert(row_of(bmp.glyphs_spec(), y as int, w as int) =~= bmp.glyphs_spec().subrange(start as int, start + w));
                    assert(row_of(bmp_last.glyphs_spec(), y as int, w as int) =~= bmp_last.glyphs_spec().subrange(start as int, start + w));
                }
            }
            y = y + 1;
        }
        assert(buf@ =~= b0 + utf8_encode("\x1b[0m"@) + diff_rows(
                bmp_last.glyphs_spec(),
                bmp_last.dirty_spec(),
                bmp.glyphs_spec(),
                w as int,
                h as int,
                Format { fg: Color::NoColor, bg: Color::NoColor },
            ).0);
        Ok(())
    }
}

/// What a glyph drawn over `old` leaves: the new character, and each of the
/// new colors that is not `NoColor` (the old color where it is).
pub open spec fn merge_glyph(old: Glyph, new: Glyph) -> Glyph {
    Glyph {
        ch: new.ch,
        format: Format {
            fg: if new.format.fg is NoColor { old.format.fg } else { new.format.fg },
            bg: if new.format.bg is NoColor { old.format.bg } else { new.format.bg },
        },
    }
}

/// The index, in a `width`-wide bitmap, of the cell at `pos` of `frame`.
pub open spec fn frame_cell(frame: Rect, width: int, pos: Pos) -> int {
    (frame.x + pos.x) + (frame.y + pos.y) * width
}

/// `gs` with the `n` cells from index `start` on drawn over with the
/// characters of `chs`, in `format`.
pub open spec fn draw_run(gs: Seq<Glyph>, start: int, chs: Seq<char>, n: int, format: Format) -> Seq<Glyph> {
    Seq::new(gs.len(), |k: int| draw_cell(gs, start, chs, n, format, k))
}

/// Cell `k` of `draw_run(gs, start, chs, n, format)`.
pub open spec fn draw_cell(gs: Seq<Glyph>, start: int, chs: Seq<char>, n: int, format: Format, k: int) -> Glyph {
    if start <= k < start + n {
        merge_glyph(gs[k], Glyph { ch: chs[k - start], format })
    } else {
        gs[k]
    }
}

/// How many of `len` characters fit on a line of `width` cells from column `x`.
pub open spec fn run_length(x: int, width: int, len: int) -> int {
    if x >= width {
        0
    } else if len <= width - x {
        len
    } else {
        width - x
    }
}

/// The same bitmap but for its glyphs.
pub open spec fn same_but_glyphs(a: Bitmap, b: Bitmap) -> bool {
    &&& a.size_spec() == b.size_spec()
    &&& a.cursor_spec() == b.cursor_spec()
    &&& a.default_glyph_spec() == b.default_glyph_spec()
    &&& a.dirty_spec() == b.dirty_spec()
}

/// A cell of a frame that lies inside a `w` by `h` grid has an index in it.
pub proof fn lemma_frame_cell(frame: Rect, w: int, h: int, pos: Pos)
    requires
        frame.x + frame.width <= w,
        frame.y + frame.height <= h,
        pos.x < frame.width,
        pos.y < frame.height,
    ensures
        0 <= frame_cell(frame, w, pos) < w * h,
{
    lemma_row_bounds(frame.y + pos.y, w, h);
}

/// The index in `bitmap` of the cell at `pos` of `frame`, a frame that lies
/// inside the bitmap.
pub(crate) fn cell_index(bitmap: &Bitmap, frame: Rect, pos: Pos) -> (i: usize)
    requires
        bitmap.wf(),
        frame.x + frame.width <= bitmap.size_spec().width,
        frame.y + frame.height <= bitmap.size_spec().height,
        pos.x < frame.width,
        pos.y < frame.height,
    ensures
        i == frame_cell(frame, bitmap.size_spec().width as int, pos),
        i < bitmap.glyphs_spec().len(),
{
    let w = bitmap.size.width;
    proof {
        lemma_row_bounds(frame.y + pos.y, w as int, bitmap.size.height as int);
        assert(bitmap.glyphs@.len() == bitmap.glyphs.len());
    }
    let x = frame.x + pos.x;
    let y = frame.y + pos.y;
    x + y * w
}

/// Draws `glyph` at `pos` of `frame` in `bitmap`: its character always,
/// and each of its colors that is not `NoColor`.
pub(crate) fn draw_glyph(bitmap: &mut Bitmap, frame: Rect, pos: Pos, glyph: Glyph)
    requires
        old(bitmap).wf(),
        frame.x + frame.width <= old(bitmap).size_spec().width,
        frame.y + frame.height <= old(bitmap).size_spec().height,
        pos.x < frame.width,
        pos.y < frame.height,
    ensures
        final(bitmap).wf(),
        same_but_glyphs(*final(bitmap), *old(bitmap)),
        final(bitmap).glyphs_spec() == old(bitmap).glyphs_spec().update(
            frame_cell(frame, old(bitmap).size_spec().width as int, pos),
            merge_glyph(
                old(bitmap).glyphs_spec()[frame_cell(frame, old(bitmap).size_spec().width as int, pos)],
                glyph,
            ),
        ),
{
    let i = cell_index(bitmap, frame, pos);
    let target = bitmap.glyphs[i];
    let fg = if glyph.format.fg == Color::NoColor { target.format.fg } else { glyph.format.fg };
    let bg = if glyph.format.bg == Color::NoColor { target.format.bg } else { glyph.format.bg };
    bitmap.glyphs.set(i, Glyph { ch: glyph.ch, format: Format { fg, bg } });
}

/// The bytes of the buffer that a formatted run is written into before it
/// is drawn; what does not fit is cut off.
pub const FMT_BUF_BYTES: usize = 4096;

/// The longest prefix of `s` whose UTF-8 encoding takes at most `n` bytes:
/// characters are kept from the front while their bytes fit.
pub open spec fn utf8_prefix(s: Seq<char>, n: int) -> Seq<char>
    decreases s.len(),
{
    if s.len() == 0 || utf8_char(s[0]).len() > n {
        Seq::empty()
    } else {
        seq![s[0]] + utf8_prefix(s.drop_first(), n - utf8_char(s[0]).len())
    }
}

/// What the formatting buffer keeps of a run `s`.
pub open spec fn fmt_kept(s: Seq<char>) -> Seq<char> {
    utf8_prefix(s, FMT_BUF_BYTES as int)
}

/// How many bytes `c` takes in UTF-8.
fn utf8_width(c: char) -> (n: usize)
    ensures
        n == utf8_char(c).len(),
{
    let u = c as u32;
    if u < 0x80 {
        1
    } else if u < 0x800 {
        2
    } else if u < 0x10000 {
        3
    } else {
        4
    }
}

/// The characters of `chs` that the formatting buffer keeps (see
/// `fmt_kept`).
pub(crate) fn fmt_truncated(chs: Vec<char>) -> (r: Vec<char>)
    ensures
        r@ == fmt_kept(chs@),
{
    let mut r: Vec<char> = Vec::new();
    let mut used: usize = 0;
    let mut i: usize = 0;
    let mut full = false;
    assert(chs@.skip(0) =~= chs@);
    while i < chs.len() && !full
        invariant
            i <= chs@.len(),
            used <= FMT_BUF_BYTES,
            r@ == chs@.take(i as int),
            fmt_kept(chs@) == chs@.take(i as int) + utf8_prefix(chs@.skip(i as int), FMT_BUF_BYTES - used),
            full ==> utf8_prefix(chs@.skip(i as int), FMT_BUF_BYTES - used) == Seq::<char>::empty(),
        decreases chs@.len() - i + (if full { 0int } else { 1int }),
    {
        let c = chs[i];
        let w = utf8_width(c);
        let ghost rest = chs@.skip(i as int);
        assert(rest[0] == c);
        if w > FMT_BUF_BYTES - used {
            full = true;
        } else {
            r.push(c);
            proof {
                assert(rest.drop_first() =~= chs@.skip(i + 1));
                assert(chs@.take(i + 1) =~= chs@.take(i as int).push(c));
                assert(chs@.take(i as int) + (seq![c] + utf8_prefix(chs@.skip(i + 1), FMT_BUF_BYTES - used - w))
                    =~= chs@.take(i + 1) + utf8_prefix(chs@.skip(i + 1), FMT_BUF_BYTES - used - w));
            }
            used = used + w;
            i = i + 1;
        }
    }
    proof {
        if !full {
            assert(chs@.take(i as int) =~= chs@);
            assert(chs@.skip(i as int).len() == 0);
        }
        assert(chs@.take(i as int) + Seq::<char>::empty() =~= chs@.take(i as int));
    }
    r
}

/// Draws the characters of `chs` in `format` along row `pos.y` of `frame`
/// from column `pos.x`, as many as fit before the frame's right edge;
/// returns how many were drawn.
pub(crate) fn draw_chars(bitmap: &mut Bitmap, frame: Rect, pos: Pos, chs: &[char], format: Format) -> (count: usize)
    requires
        old(bitmap).wf(),
        frame.x + frame.width <= old(bitmap).size_spec().width,
        frame.y + frame.height <= old(bitmap).size_spec().height,
        pos.x < frame.width && chs@.len() > 0 ==> pos.y < frame.height,
    ensures
        count == run_length(pos.x as int, frame.width as int, chs@.len() as int),
        final(bitmap).wf(),
        same_but_glyphs(*final(bitmap), *old(bitmap)),
        final(bitmap).glyphs_spec() == draw_run(
            old(bitmap).glyphs_spec(),
            frame_cell(frame, old(bitmap).size_spec().width as int, pos),
            chs@,
            count as int,
            format,
        ),
{
    let max_pos = frame.width;
    let mut count: usize = 0;
    let mut p = pos;
    let ghost gs0 = bitmap.glyphs_spec();
    let ghost w = bitmap.size_spec().width as int;
    let ghost start = frame_cell(frame, w, pos);
    while count < chs.len()
        invariant
            bitmap.wf(),
            same_but_glyphs(*bitmap, *old(bitmap)),
            frame.x + frame.width <= bitmap.size_spec().width,
            frame.y + frame.height <= bitmap.size_spec().height,
            max_pos == frame.width,
            gs0 == old(bitmap).glyphs_spec(),
            w == old(bitmap).size_spec().width,
            start == frame_cell(frame, w, pos),
            p.y == pos.y,
            p.x == pos.x + count,
            count <= chs@.len(),
            count <= run_length(pos.x as int, max_pos as int, chs@.len() as int),
            pos.x < max_pos && chs@.len() > 0 ==> pos.y < frame.height,
            bitmap.glyphs_spec() == draw_run(gs0, start, chs@, count as int, format),
        ensures
            count == run_length(pos.x as int, max_pos as int, chs@.len() as int),
            bitmap.glyphs_spec() == draw_run(gs0, start, chs@, count as int, format),
        decreases chs@.len() - count,
    {
        if p.x >= max_pos {
            break;
        }
        let ghost before = bitmap.glyphs_spec();
        let ghost idx = frame_cell(frame, w, p);
        let g = Glyph::new(chs[count], format);
        draw_glyph(bitmap, frame, p, g);
        proof {
            lemma_frame_cell(frame, w, bitmap.size_spec().height as int, p);
            assert(idx == start + count);
            assert(0 <= idx < before.len());
            assert(before[idx] == gs0[idx]);
            let after = bitmap.glyphs_spec();
            assert(after == before.update(idx, merge_glyph(before[idx], g)));
            let want = draw_run(gs0, start, chs@, count + 1, format);
            assert forall|k: int| 0 <= k < after.len() implies after[k] == want[k] by {
                if k != idx {
                    assert(after[k] == before[k]);
                    assert(before[k] == draw_cell(gs0, start, chs@, count as int, format, k));
                }
            }
            assert(after =~= want);
        }
        p.x = p.x + 1;
        count = count + 1;
    }
    count
}

/// Sets the background color of the cell at `pos` of `frame` in `bitmap`.
pub(crate) fn paint_bg(bitmap: &mut Bitmap, frame: Rect, pos: Pos, bg: BgColor)
    requires
        old(bitmap).wf(),
        frame.x + frame.width <= old(bitmap).size_spec().width,
        frame.y + frame.height <= old(bitmap).size_spec().height,
        pos.x < frame.width,
        pos.y < frame.height,
    ensures
        final(bitmap).wf(),
        same_but_glyphs(*final(bitmap), *old(bitmap)),
        final(bitmap).glyphs_spec() == old(bitmap).glyphs_spec().update(
            frame_cell(frame, old(bitmap).size_spec().width as int, pos),
            with_bg(old(bitmap).glyphs_spec()[frame_cell(frame, old(bitmap).size_spec().width as int, pos)], bg),
        ),
{
    let i = cell_index(bitmap, frame, pos);
    let target = bitmap.glyphs[i];
    bitmap.glyphs.set(i, Glyph { ch: target.ch, format: Format { fg: target.format.fg, bg } });
}

/// `g` with its background color set to `bg`.
pub open spec fn with_bg(g: Glyph, bg: BgColor) -> Glyph {
    Glyph { ch: g.ch, format: Format { fg: g.format.fg, bg } }
}

/// A rectangle of a bitmap, drawn on in its own coordinates.
pub struct BitmapView<'a> {
    pub bitmap: &'a mut Bitmap,
    pub frame: Rect,
}

impl<'a> BitmapView<'a> {
    /// The bitmap is well formed and the frame lies inside it.
    pub open spec fn fits(&self) -> bool {
        &&& self.bitmap.wf()
        &&& self.frame.x + self.frame.width <= self.bitmap.size_spec().width
        &&& self.frame.y + self.frame.height <= self.bitmap.size_spec().height
    }

    /// The index in the bitmap of the cell at `pos` of the frame.
    pub open spec fn cell(&self, pos: Pos) -> int {
        frame_cell(self.frame, self.bitmap.size_spec().width as int, pos)
    }

    pub fn new(glyphs: &'a mut Bitmap, frame: Rect) -> (r: Self)
        ensures
            r.frame == frame,
            *r.bitmap == *old(glyphs),
            *final(glyphs) == *final(r.bitmap),
    {
        BitmapView { bitmap: glyphs, frame }
    }

    pub fn get_size(&self) -> (s: Size)
        ensures
            s == (Size { width: self.frame.width, height: self.frame.height }),
    {
        self.frame.size()
    }

    /// Puts the bitmap's cursor at `frame`'s corner plus `pos`, where `pos`
    /// lies inside the frame; does nothing otherwise.
    pub fn set_cursor(&mut self, pos: Pos)
        requires
            rect_has(old(self).frame, pos) ==> old(self).frame.x + pos.x <= usize::MAX
                && old(self).frame.y + pos.y <= usize::MAX,
        ensures
            final(self).frame == old(self).frame,
            *final(final(self).bitmap) == *final(old(self).bitmap),
            final(self).bitmap.glyphs_spec() == old(self).bitmap.glyphs_spec(),
            final(self).bitmap.size_spec() == old(self).bitmap.size_spec(),
            final(self).bitmap.default_glyph_spec() == old(self).bitmap.default_glyph_spec(),
            final(self).bitmap.dirty_spec() == old(self).bitmap.dirty_spec(),
            final(self).bitmap.cursor_spec() == if rect_has(old(self).frame, pos) {
                Some(Pos { x: (old(self).frame.x + pos.x) as usize, y: (old(self).frame.y + pos.y) as usize })
            } else {
                old(self).bitmap.cursor_spec()
            },
    {
        if self.frame.contains(pos) {
            self.bitmap.cursor = Some(self.frame.top_left().add(pos));
        }
    }

    /// Draws `glyph` at `pos` of the frame: its character always, and each
    /// of its colors that is not `NoColor`.
    pub fn set_glyph(&mut self, pos: Pos, glyph: Glyph)
        requires
            old(self).fits(),
            pos.x < old(self).frame.width,
            pos.y < old(self).frame.height,
        ensures
            final(self).frame == old(self).frame,
            *final(final(self).bitmap) == *final(old(self).bitmap),
            same_but_glyphs(*final(self).bitmap, *old(self).bitmap),
            final(self).bitmap.glyphs_spec() == old(self).bitmap.glyphs_spec().update(
                old(self).cell(pos),
                merge_glyph(old(self).bitmap.glyphs_spec()[old(self).cell(pos)], glyph),
            ),
    {
        draw_glyph(self.bitmap, self.frame, pos, glyph);
    }

    /// Sets the background color of the cell at `pos` of the frame.
    pub fn set_bg(&mut self, pos: Pos, bg: BgColor)
        requires
            old(self).fits(),
            pos.x < old(self).frame.width,
            pos.y < old(self).frame.height,
        ensures
            final(self).frame == old(self).frame,
            *final(final(self).bitmap) == *final(old(self).bitmap),
            same_but_glyphs(*final(self).bitmap, *old(self).bitmap),
            final(self).bitmap.glyphs_spec() == old(self).bitmap.glyphs_spec().update(
                old(self).cell(pos),
                Glyph {
                    ch: old(self).bitmap.glyphs_spec()[old(self).cell(pos)].ch,
                    format: Format {
                        fg: old(self).bitmap.glyphs_spec()[old(self).cell(pos)].format.fg,
                        bg,
                    },
                },
            ),
    {
        let i = cell_index(self.bitmap, self.frame, pos);
        let target = self.bitmap.glyphs[i];
        self.bitmap.glyphs.set(i, Glyph { ch: target.ch, format: Format { fg: target.format.fg, bg } });
    }

    /// Draws the characters of `chs` in `format` along row `pos.y` of the
    /// frame from column `pos.x`, as many as fit before the frame's right
    /// edge; returns how many were drawn.
    pub fn append_chars_at(&mut self, pos: Pos, chs: &[char], format: Format) -> (count: usize)
        requires
            old(self).fits(),
            pos.x < old(self).frame.width && chs@.len() > 0 ==> pos.y < old(self).frame.height,
        ensures
            count == run_length(pos.x as int, old(self).frame.width as int, chs@.len() as int),
            final(self).frame == old(self).frame,
            *final(final(self).bitmap) == *final(old(self).bitmap),
            same_but_glyphs(*final(self).bitmap, *old(self).bitmap),
            final(self).bitmap.glyphs_spec() == draw_run(
                old(self).bitmap.glyphs_spec(),
                old(self).cell(pos),
                chs@,
                count as int,
                format,
            ),
    {
        draw_chars(self.bitmap, self.frame, pos, chs, format)
    }

    /// Draws `chs` as `append_chars_at` does, and moves `pos` right past
    /// what was drawn.
    pub fn append_chars_at_pos(&mut self, pos: &mut Pos, chs: &[char], format: Format)
        requires
            old(self).fits(),
            old(pos).x < old(self).frame.width && chs@.len() > 0 ==> old(pos).y < old(self).frame.height,
        ensures
            final(pos).y == old(pos).y,
            final(pos).x == old(pos).x + run_length(
                old(pos).x as int,
                old(self).frame.width as int,
                chs@.len() as int,
            ),
            final(self).frame == old(self).frame,
            *final(final(self).bitmap) == *final(old(self).bitmap),
            same_but_glyphs(*final(self).bitmap, *old(self).bitmap),
            final(self).bitmap.glyphs_spec() == draw_run(
                old(self).bitmap.glyphs_spec(),
                old(self).cell(*old(pos)),
                chs@,
                run_length(old(pos).x as int, old(self).frame.width as int, chs@.len() as int),
                format,
            ),
    {
        let n = self.append_chars_at(*pos, chs, format);
        pos.x = pos.x + n;
    }

    /// Draws `s` in the default colors so that it ends at the frame's right
    /// edge, on row `pos.y`, where it fits between column `pos.x` and that
    /// edge; draws nothing otherwise.
    pub fn end_line_with_str(&mut self, pos: Pos, s: &str)
        requires
            old(self).fits(),
            pos.x < old(self).frame.width && s@.len() <= old(self).frame.width - pos.x
                && s@.len() > 0 ==> pos.y < old(self).frame.height,
        ensures
            final(self).frame == old(self).frame,
            *final(final(self).bitmap) == *final(old(self).bitmap),
            same_but_glyphs(*final(self).bitmap, *old(self).bitmap),
            final(self).bitmap.glyphs_spec() == if pos.x < old(self).frame.width && s@.len()
                <= old(self).frame.width - pos.x {
                draw_run(
                    old(self).bitmap.glyphs_spec(),
                    old(self).cell(Pos { x: (old(self).frame.width - s@.len()) as usize, y: pos.y }),
                    s@,
                    s@.len() as int,
                    Format { fg: Color::NoColor, bg: Color::NoColor },
                )
            } else {
                old(self).bitmap.glyphs_spec()
            },
    {
        let chs = str_to_chars(s);
        let count = chs.len();
        if self.frame.width <= pos.x {
            return;
        }
        let remaining_space = self.frame.width - pos.x;
        if remaining_space >= count {
            let start = Pos { x: self.frame.width - count, y: pos.y };
            let n = self.append_chars_at(start, chs.as_slice(), Format::none());
            assert(n == count);
        }
    }

}

} // verus!
