use vstd::prelude::*;
use crate::buf::Buf;

verus! {

/// Bytes for the terminal, with the offsets where lines break.
pub struct Raster {
    pub buf: Buf,
    pub breaks: Vec<usize>,
}

impl Raster {
    /// An empty raster.
    pub fn new() -> (r: Self)
        ensures
            r.buf@ == Seq::<u8>::empty(),
            r.breaks@ == Seq::<usize>::empty(),
    {
        Raster { buf: Buf::default(), breaks: Vec::new() }
    }

    /// Empties the raster.
    pub fn truncate(&mut self)
        ensures
            final(self).buf@ == Seq::<u8>::empty(),
            final(self).breaks@ == Seq::<usize>::empty(),
    {
        self.buf.truncate(0);
        self.breaks.truncate(0);
    }

    /// Appends the UTF-8 bytes of `text`.
    pub fn append(&mut self, text: &str)
        ensures
            final(self).buf@ == old(self).buf@ + crate::buf::utf8_encode(text@),
            final(self).breaks@ == old(self).breaks@,
    {
        self.buf.append(text);
    }

    /// Marks a line break at the current end of the bytes.
    pub fn add_break(&mut self)
        ensures
            final(self).buf@ == old(self).buf@,
            final(self).breaks@ == old(self).breaks@.push(old(self).buf@.len() as usize),
    {
        let n = self.buf.len();
        self.breaks.push(n);
    }
}

} // verus!
