use vstd::prelude::*;
use crate::bitmap::{draw_run, run_length, same_but_glyphs, BitmapView};
use crate::color::Color;
use crate::format::Format;
use crate::text::str_to_chars;
use crate::types::Pos;

verus! {

/// A writer along one row of a bitmap view, from a column on.
pub struct Line<'a> {
    pub bmp: BitmapView<'a>,
    pub pos: Pos,
}

impl<'a> Line<'a> {
    /// The view fits its bitmap and the row lies in the view.
    pub open spec fn wf(&self) -> bool {
        &&& self.bmp.fits()
        &&& self.pos.y < self.bmp.frame.height
    }

    /// A writer at `pos`, which must lie in the view.
    pub fn new(bmp: BitmapView<'a>, pos: Pos) -> (l: Self)
        requires
            bmp.fits(),
            pos.x < bmp.frame.width,
            pos.y < bmp.frame.height,
        ensures
            l.bmp == bmp,
            l.pos == pos,
            l.wf(),
    {
        Line { bmp, pos }
    }

    /// How wide the row is.
    fn max_line_length(&self) -> (n: usize)
        ensures
            n == self.bmp.frame.width,
    {
        self.bmp.get_size().width
    }

    /// How many columns lie between the writer and the end of the row.
    #[allow(dead_code)]
    fn cur_dist_to_end(&self) -> (n: usize)
        requires
            self.pos.x <= self.bmp.frame.width,
        ensures
            n == self.bmp.frame.width - self.pos.x,
    {
        self.max_line_length() - self.pos.x
    }

    /// Writes the characters of `b` in the default colors from the
    /// writer's column on, as many as fit in the row, and moves the writer
    /// past them.
    pub fn append_str(&mut self, b: &str)
        requires
            old(self).wf(),
        ensures
            final(self).wf(),
            final(self).bmp.frame == old(self).bmp.frame,
            *final(final(self).bmp.bitmap) == *final(old(self).bmp.bitmap),
            same_but_glyphs(*final(self).bmp.bitmap, *old(self).bmp.bitmap),
            final(self).pos == (Pos {
                x: (old(self).pos.x + run_length(old(self).pos.x as int, old(self).bmp.frame.width as int, b@.len() as int)) as usize,
                y: old(self).pos.y,
            }),
            final(self).bmp.bitmap.glyphs_spec() == draw_run(
                old(self).bmp.bitmap.glyphs_spec(),
                old(self).bmp.cell(old(self).pos),
                b@,
                run_length(old(self).pos.x as int, old(self).bmp.frame.width as int, b@.len() as int),
                Format { fg: Color::NoColor, bg: Color::NoColor },
            ),
    {
        let chs = str_to_chars(b);
        self.bmp.append_chars_at_pos(&mut self.pos, chs.as_slice(), Format::none());
    }

    /// How many columns are left in the row.
    pub fn remaining_space(&self) -> (n: usize)
        ensures
            n == if self.bmp.frame.width > self.pos.x {
                self.bmp.frame.width - self.pos.x
            } else {
                0
            },
    {
        let mll = self.max_line_length();
        if mll > self.pos.x {
            mll - self.pos.x
        } else {
            0
        }
    }

    /// Writes `s` in the default colors so that it ends at the end of the
    /// row, where it fits in the columns left; writes nothing otherwise.
    /// The writer ends at the end of the row when `s` was written.
    pub fn end_with_str(&mut self, s: &str)
        requires
            old(self).wf(),
        ensures
            final(self).wf(),
            final(self).bmp.frame == old(self).bmp.frame,
            *final(final(self).bmp.bitmap) == *final(old(self).bmp.bitmap),
            same_but_glyphs(*final(self).bmp.bitmap, *old(self).bmp.bitmap),
            ({
                let w = old(self).bmp.frame.width;
                let room = if old(self).pos.x < w {
                    w - old(self).pos.x
                } else {
                    0
                };
                let fits = s@.len() <= room;
                &&& final(self).pos == if fits {
                    Pos { x: w, y: old(self).pos.y }
                } else {
                    old(self).pos
                }
                &&& final(self).bmp.bitmap.glyphs_spec() == if fits {
                    draw_run(
                        old(self).bmp.bitmap.glyphs_spec(),
                        old(self).bmp.cell(Pos { x: (w - s@.len()) as usize, y: old(self).pos.y }),
                        s@,
                        s@.len() as int,
                        Format { fg: Color::NoColor, bg: Color::NoColor },
                    )
                } else {
                    old(self).bmp.bitmap.glyphs_spec()
                }
            }),
    {
        let chs = str_to_chars(s);
        let count = chs.len();
        if self.remaining_space() >= count {
            let mll = self.max_line_length();
            self.pos.x = mll - count;
            let n = self.bmp.append_chars_at(self.pos, chs.as_slice(), Format::none());
            assert(n == count);
            self.pos.x = self.pos.x + n;
        }
    }
}

} // verus!
