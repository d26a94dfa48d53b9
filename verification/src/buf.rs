use vstd::prelude::*;

verus! {

/// The UTF-8 encoding of one character.
pub open spec fn utf8_char(c: char) -> Seq<u8> {
    let u = c as u32;
    if u < 0x80 {
        seq![u as u8]
    } else if u < 0x800 {
        seq![(0xc0 | (u >> 6u32)) as u8, (0x80 | (u & 0x3f)) as u8]
    } else if u < 0x10000 {
        seq![
            (0xe0 | (u >> 12u32)) as u8,
            (0x80 | ((u >> 6u32) & 0x3f)) as u8,
            (0x80 | (u & 0x3f)) as u8,
        ]
    } else {
        seq![
            (0xf0 | (u >> 18u32)) as u8,
            (0x80 | ((u >> 12u32) & 0x3f)) as u8,
            (0x80 | ((u >> 6u32) & 0x3f)) as u8,
            (0x80 | (u & 0x3f)) as u8,
        ]
    }
}

/// The UTF-8 encoding of a text.
pub open spec fn utf8_encode(s: Seq<char>) -> Seq<u8>
    decreases s.len(),
{
    if s.len() == 0 {
        Seq::empty()
    } else {
        utf8_encode(s.drop_last()) + utf8_char(s.last())
    }
}

/// A growing buffer of bytes to send to the terminal.
#[derive(Clone, Debug)]
pub struct Buf(Vec<u8>);

impl View for Buf {
    type V = Seq<u8>;

    closed spec fn view(&self) -> Seq<u8> {
        self.0@
    }
}

impl Buf {
    /// An empty buffer.
    pub fn default() -> (b: Self)
        ensures
            b@ == Seq::<u8>::empty(),
    {
        Buf(Vec::new())
    }

    /// Keeps the first `s` bytes.
    pub fn truncate(&mut self, s: usize)
        ensures
            s <= old(self)@.len() ==> final(self)@ == old(self)@.take(s as int),
            s > old(self)@.len() ==> final(self)@ == old(self)@,
    {
        self.0.truncate(s)
    }

    /// Appends the UTF-8 encoding of `ch`.
    pub fn push_char(&mut self, ch: char)
        ensures
            final(self)@ == old(self)@ + utf8_char(ch),
    {
        let u = ch as u32;
        if u < 0x80 {
            self.0.push(u as u8);
        } else if u < 0x800 {
            self.0.push((0xc0 | (u >> 6u32)) as u8);
            self.0.push((0x80 | (u & 0x3f)) as u8);
        } else if u < 0x10000 {
            self.0.push((0xe0 | (u >> 12u32)) as u8);
            self.0.push((0x80 | ((u >> 6u32) & 0x3f)) as u8);
            self.0.push((0x80 | (u & 0x3f)) as u8);
        } else {
            self.0.push((0xf0 | (u >> 18u32)) as u8);
            self.0.push((0x80 | ((u >> 12u32) & 0x3f)) as u8);
            self.0.push((0x80 | ((u >> 6u32) & 0x3f)) as u8);
            self.0.push((0x80 | (u & 0x3f)) as u8);
        }
        assert(self@ =~= old(self)@ + utf8_char(ch));
    }

    /// Appends the UTF-8 encoding of `s`.
    pub fn append(&mut self, s: &str)
        ensures
            final(self)@ == old(self)@ + utf8_encode(s@),
    {
        let chars = crate::text::str_to_chars(s);
        let mut i: usize = 0;
        while i < chars.len()
            invariant
                i <= chars@.len(),
                chars@ == s@,
                self@ == old(self)@ + utf8_encode(chars@.take(i as int)),
            decreases chars@.len() - i,
        {
            let c = chars[i];
            self.push_char(c);
            assert(chars@.take(i + 1).drop_last() =~= chars@.take(i as int));
            i = i + 1;
        }
        assert(chars@.take(chars@.len() as int) =~= chars@);
    }

    /// Appends bytes.
    pub fn extend(&mut self, bytes: &[u8])
        ensures
            final(self)@ == old(self)@ + bytes@,
    {
        let mut i: usize = 0;
        while i < bytes.len()
            invariant
                i <= bytes@.len(),
                self@ == old(self)@ + bytes@.take(i as int),
            decreases bytes@.len() - i,
        {
            self.0.push(bytes[i]);
            i = i + 1;
            assert(self@ =~= old(self)@ + bytes@.take(i as int));
        }
        assert(bytes@.take(bytes@.len() as int) =~= bytes@);
    }

    pub fn as_bytes(&self) -> (b: &[u8])
        ensures
            b@ == self@,
    {
        self.0.as_slice()
    }

    pub fn len(&self) -> (n: usize)
        ensures
            n == self@.len(),
    {
        self.0.len()
    }
}

} // verus!
