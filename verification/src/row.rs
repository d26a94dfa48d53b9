use vstd::prelude::*;
use crate::classify::{classify, classify_spec, CharType};
use crate::types::{clamp_int, Coord, SafeCoordCast};

verus! {

/// How many columns a tab advances to the next tab stop.
pub const TAB_STOP_SIZE: usize = 4;

/// What one character of a row looks like on screen: a tab becomes
/// `TAB_STOP_SIZE` blanks, anything else stands for itself.
pub open spec fn render_char(c: char) -> Seq<char> {
    if c == '\t' {
        Seq::new(TAB_STOP_SIZE as nat, |i: int| ' ')
    } else {
        seq![c]
    }
}

/// The on-screen text of a row's characters.
pub open spec fn render_spec(s: Seq<char>) -> Seq<char>
    decreases s.len(),
{
    if s.len() == 0 {
        Seq::empty()
    } else {
        render_spec(s.drop_last()) + render_char(s.last())
    }
}

/// The number of tabs in `s`.
pub open spec fn tab_count(s: Seq<char>) -> nat
    decreases s.len(),
{
    if s.len() == 0 {
        0
    } else {
        tab_count(s.drop_last()) + if s.last() == '\t' {
            1nat
        } else {
            0nat
        }
    }
}

/// The render column reached after stepping over `c` from column `rx`.
pub open spec fn render_step(rx: int, c: char) -> int {
    if c == '\t' {
        rx + (TAB_STOP_SIZE - 1) - rx % (TAB_STOP_SIZE as int) + 1
    } else {
        rx + 1
    }
}

/// The render column of the first `n` characters of `s`, tabs advancing to
/// the next tab stop.
pub open spec fn render_col(s: Seq<char>, n: int) -> int
    decreases n,
{
    if n <= 0 {
        0
    } else {
        render_step(render_col(s, n - 1), s[n - 1])
    }
}

/// The index where the run of characters of `s[x]`'s class that starts at
/// `x` ends: every character strictly between `x` and `r` has that class, and
/// `s[r]` (if any) does not.
pub open spec fn is_next_word_break(s: Seq<char>, x: int, r: int) -> bool {
    if s.len() <= x + 1 {
        r == s.len()
    } else {
        &&& x + 1 <= r <= s.len()
        &&& forall|j: int| x < j < r ==> classify_spec(#[trigger] s[j]) == classify_spec(s[x])
        &&& r < s.len() ==> classify_spec(s[r]) != classify_spec(s[x])
    }
}

/// The start of the run of characters of `s[x' - 1]`'s class that ends at
/// `x' = min(x, len)`; zero when `x'` is zero.
pub open spec fn is_prev_word_break(s: Seq<char>, x: int, r: int) -> bool {
    let xc = if x > s.len() {
        s.len() as int
    } else {
        x
    };
    if xc <= 0 {
        r == 0
    } else {
        &&& 0 <= r < xc
        &&& forall|j: int| r <= j < xc ==> classify_spec(#[trigger] s[j]) == classify_spec(s[xc - 1])
        &&& r > 0 ==> classify_spec(s[r - 1]) != classify_spec(s[xc - 1])
    }
}

/// One line of a document: its characters and their on-screen rendering.
#[derive(Debug)]
pub struct Row {
    buf: Vec<char>,
    render: Vec<char>,
}

impl View for Row {
    type V = Seq<char>;

    closed spec fn view(&self) -> Seq<char> {
        self.buf@
    }
}

/// Copies a slice of characters into a new vector.
pub fn copy_chars(s: &[char]) -> (v: Vec<char>)
    ensures
        v@ == s@,
{
    let mut v: Vec<char> = Vec::new();
    let mut i: usize = 0;
    while i < s.len()
        invariant
            i <= s@.len(),
            v@ == s@.take(i as int),
        decreases s@.len() - i,
    {
        v.push(s[i]);
        i = i + 1;
        assert(v@ =~= s@.take(i as int));
    }
    assert(s@.take(s@.len() as int) =~= s@);
    v
}

proof fn lemma_render_no_tabs(s: Seq<char>)
    requires
        tab_count(s) == 0,
    ensures
        render_spec(s) == s,
    decreases s.len(),
{
    if s.len() > 0 {
        lemma_render_no_tabs(s.drop_last());
        assert(render_char(s.last()) =~= seq![s.last()]);
        assert(s.drop_last() + seq![s.last()] =~= s);
    }
}

/// The rendering of `s` is `s` with three more blanks per tab.
proof fn lemma_render_spec_len(s: Seq<char>)
    ensures
        render_spec(s).len() == s.len() + 3 * tab_count(s),
    decreases s.len(),
{
    if s.len() > 0 {
        lemma_render_spec_len(s.drop_last());
    }
}

/// A prefix holds no more tabs than the whole.
proof fn lemma_tab_count_take(s: Seq<char>, n: int)
    requires
        0 <= n <= s.len(),
    ensures
        tab_count(s.take(n)) <= tab_count(s),
    decreases s.len(),
{
    if n == s.len() {
        assert(s.take(n) =~= s);
    } else {
        assert(s.drop_last().take(n) =~= s.take(n));
        lemma_tab_count_take(s.drop_last(), n);
    }
}

/// The render column of `n` characters is at most `n` plus three per tab
/// among them.
proof fn lemma_render_col_le(s: Seq<char>, n: int)
    requires
        0 <= n <= s.len(),
    ensures
        render_col(s, n) <= n + 3 * tab_count(s.take(n)),
    decreases n,
{
    if n > 0 {
        lemma_render_col_le(s, n - 1);
        assert(s.take(n).drop_last() =~= s.take(n - 1));
        assert(s.take(n).last() == s[n - 1]);
        let rx = render_col(s, n - 1);
        assert(0 <= rx % 4 < 4);
    }
}

/// The render column of any prefix fits in the rendering of the whole.
proof fn lemma_render_col_fits(s: Seq<char>, n: int)
    requires
        0 <= n <= s.len(),
    ensures
        render_col(s, n) <= render_spec(s).len(),
{
    lemma_render_col_le(s, n);
    lemma_tab_count_take(s, n);
    lemma_render_spec_len(s);
}

proof fn lemma_render_col_bound(s: Seq<char>, n: int)
    requires
        0 <= n,
    ensures
        n <= render_col(s, n) <= n * TAB_STOP_SIZE,
    decreases n,
{
    if n > 0 {
        lemma_render_col_bound(s, n - 1);
        let rx = render_col(s, n - 1);
        assert(0 <= rx % 4 < 4);
    }
}

impl Row {
    /// The rendering that the row holds.
    pub closed spec fn render_view(&self) -> Seq<char> {
        self.render@
    }

    /// The rendering matches the characters.
    pub open spec fn wf(&self) -> bool {
        self.render_view() == render_spec(self@)
    }

    /// A row of an empty line.
    pub fn new_empty() -> (r: Self)
        ensures
            r@ == Seq::<char>::empty(),
            r.wf(),
    {
        Row { buf: Vec::new(), render: Vec::new() }
    }

    /// Counts the tabs in `buf`.
    fn count_tabs(buf: &[char]) -> (n: usize)
        ensures
            n == tab_count(buf@),
    {
        let mut n: usize = 0;
        let mut i: usize = 0;
        while i < buf.len()
            invariant
                i <= buf@.len(),
                n == tab_count(buf@.take(i as int)),
                n <= i,
            decreases buf@.len() - i,
        {
            assert(buf@.take(i as int + 1).drop_last() =~= buf@.take(i as int));
            if buf[i] == '\t' {
                n = n + 1;
            }
            i = i + 1;
        }
        assert(buf@.take(buf@.len() as int) =~= buf@);
        n
    }

    /// Appends the rendering of `buf` to `render`; without tabs `render`
    /// becomes exactly `buf`.
    fn renderize_in_place(buf: &[char], render: &mut Vec<char>)
        ensures
            tab_count(buf@) == 0 ==> final(render)@ == buf@,
            tab_count(buf@) != 0 ==> final(render)@ == old(render)@ + render_spec(buf@),
            final(render)@ == buf@ || tab_count(buf@) != 0,
    {
        let tabs = Self::count_tabs(buf);
        if tabs == 0 {
            render.truncate(0);
            let mut i: usize = 0;
            while i < buf.len()
                invariant
                    i <= buf@.len(),
                    render@ == buf@.take(i as int),
                decreases buf@.len() - i,
            {
                render.push(buf[i]);
                i = i + 1;
                assert(render@ =~= buf@.take(i as int));
            }
            assert(buf@.take(buf@.len() as int) =~= buf@);
        } else {
            let ghost start = render@;
            let mut i: usize = 0;
            while i < buf.len()
                invariant
                    i <= buf@.len(),
                    render@ == start + render_spec(buf@.take(i as int)),
                decreases buf@.len() - i,
            {
                let ghost before = render@;
                let ch = buf[i];
                if ch == '\t' {
                    let mut k: usize = 0;
                    while k < TAB_STOP_SIZE
                        invariant
                            k <= TAB_STOP_SIZE,
                            render@ == before + Seq::new(k as nat, |j: int| ' '),
                        decreases TAB_STOP_SIZE - k,
                    {
                        render.push(' ');
                        k = k + 1;
                        assert(render@ =~= before + Seq::new(k as nat, |j: int| ' '));
                    }
                } else {
                    render.push(ch);
                }
                assert(buf@.take(i as int + 1).drop_last() =~= buf@.take(i as int));
                i = i + 1;
                assert(render@ =~= start + render_spec(buf@.take(i as int)));
            }
            assert(buf@.take(buf@.len() as int) =~= buf@);
        }
        proof {
            if tab_count(buf@) == 0 {
                lemma_render_no_tabs(buf@);
            }
        }
    }

    fn renderize(buf: &[char]) -> (render: Vec<char>)
        ensures
            render@ == render_spec(buf@),
    {
        let mut render: Vec<char> = Vec::new();
        Self::renderize_in_place(buf, &mut render);
        proof {
            if tab_count(buf@) == 0 {
                lemma_render_no_tabs(buf@);
            }
        }
        render
    }

    /// A row holding `buf`.
    pub fn from_buf(buf: Vec<char>) -> (r: Self)
        ensures
            r@ == buf@,
            r.wf(),
    {
        let render = Self::renderize(buf.as_slice());
        Row { render, buf }
    }

    /// A row holding the characters of `line`.
    pub fn from_line(line: &str) -> (r: Self)
        ensures
            r@ == line@,
            r.wf(),
    {
        let mut buf: Vec<char> = Vec::new();
        for c in it: line.chars()
            invariant
                buf@ == it.seq().take(it.index() as int),
                it.seq() == line@,
        {
            buf.push(c);
        }
        Self::from_buf(buf)
    }

    /// `first` up to `first_index`, then `second` from `second_index` on.
    pub fn joined_rows(first: &Self, second: &Self, first_index: Coord, second_index: Coord) -> (r:
        Self)
        requires
            first_index <= first@.len(),
            second_index <= second@.len(),
        ensures
            r@ == first@.take(first_index as int) + second@.skip(second_index as int),
            r.wf(),
    {
        let mut buf = copy_chars(&first.buf.as_slice()[0..first_index]);
        let mut rest = copy_chars(&second.buf.as_slice()[second_index..second.buf.len()]);
        buf.append(&mut rest);
        Self::from_buf(buf)
    }

    /// A row holding a copy of `chs`.
    pub fn from_chars(chs: &[char]) -> (r: Self)
        ensures
            r@ == chs@,
            r.wf(),
    {
        let mut slf = Row { buf: copy_chars(chs), render: Vec::new() };
        slf.update_render();
        proof {
            if tab_count(chs@) == 0 {
                lemma_render_no_tabs(chs@);
            }
        }
        slf
    }

    pub fn len(&self) -> (n: usize)
        ensures
            n == self@.len(),
    {
        self.buf.len()
    }

    pub fn is_empty(&self) -> (b: bool)
        ensures
            b == (self@.len() == 0),
    {
        self.buf.len() == 0
    }

    /// A row of the first `len` characters.
    pub fn truncate(&self, len: usize) -> (r: Self)
        requires
            len <= self@.len(),
        ensures
            r@ == self@.take(len as int),
            r.wf(),
    {
        Self::from_chars(&self.buf.as_slice()[0..len])
    }

    /// The row cut in two at `x`.
    pub fn split_at(&self, x: usize) -> (r: [Self; 2])
        requires
            x <= self@.len(),
        ensures
            r[0]@ == self@.take(x as int),
            r[1]@ == self@.skip(x as int),
            r[0].wf(),
            r[1].wf(),
    {
        let a = Self::from_chars(&self.buf.as_slice()[0..x]);
        let b = Self::from_chars(&self.buf.as_slice()[x..self.buf.len()]);
        [a, b]
    }

    /// The render column of the cursor at `cursor`, tabs advancing to the
    /// next tab stop; a cursor past the end counts the whole row.
    pub fn cursor_to_render_col(&self, cursor: Coord) -> (c: Coord)
        requires
            self.wf(),
        ensures
            c == render_col(
                self@,
                if cursor < self@.len() {
                    cursor as int
                } else {
                    self@.len() as int
                },
            ),
    {
        let mut render_x: usize = 0;
        let mut i: usize = 0;
        proof {
            assert(self.render@.len() == self.render.len());
        }
        while i < self.buf.len() && i != cursor
            invariant
                i <= self@.len(),
                i <= cursor,
                render_x == render_col(self@, i as int),
                self.wf(),
                self.render@.len() <= usize::MAX,
            decreases self@.len() - i,
        {
            proof {
                lemma_render_col_fits(self@, i as int + 1);
                lemma_render_col_bound(self@, i as int);
            }
            let ch = self.buf[i];
            if ch == '\t' {
                render_x = render_x + ((TAB_STOP_SIZE - 1) - render_x % TAB_STOP_SIZE);
            }
            render_x = render_x + 1;
            i = i + 1;
        }
        render_x.as_coord()
    }

    /// The character at `x`, where the end of the row reads as a newline.
    pub fn char_at(&self, x: Coord) -> (c: Option<char>)
        requires
            x <= self@.len(),
        ensures
            c == Some(
                if x == self@.len() {
                    '\n'
                } else {
                    self@[x as int]
                },
            ),
    {
        if x == self.buf.len() {
            Some('\n')
        } else {
            Some(self.buf[x])
        }
    }

    /// A row with `ch` inserted at `x`.
    pub fn insert_char(&self, x: Coord, ch: char) -> (r: Self)
        requires
            x <= self@.len(),
        ensures
            r@ == self@.insert(x as int, ch),
            r.wf(),
    {
        let mut buf = copy_chars(self.buf.as_slice());
        buf.insert(x, ch);
        Self::from_buf(buf)
    }

    /// The characters from `start` up to `end`, the end clamped into the row.
    pub fn get_slice(&self, start: usize, end: usize) -> (s: &[char])
        requires
            start <= self@.len(),
        ensures
            s@ == self@.subrange(
                start as int,
                clamp_int(end as int, start as int, self@.len() as int),
            ),
    {
        let e = crate::types::clamp_usize(end, start, self.buf.len());
        &self.buf.as_slice()[start..e]
    }

    pub fn as_slice(&self) -> (s: &[char])
        ensures
            s@ == self@,
    {
        self.buf.as_slice()
    }

    /// Renders the characters into the rendering. Without tabs the rendering
    /// becomes the characters; with tabs the rendered text is appended to
    /// what the rendering held.
    pub fn update_render(&mut self)
        ensures
            final(self)@ == old(self)@,
            tab_count(old(self)@) == 0 ==> final(self).render_view() == old(self)@,
            tab_count(old(self)@) != 0 ==> final(self).render_view() == old(self).render_view()
                + render_spec(old(self)@),
    {
        Self::renderize_in_place(self.buf.as_slice(), &mut self.render);
    }

    /// A row with `start..end` replaced by `text`.
    pub fn splice(&self, start: Coord, end: Coord, text: &str) -> (r: Self)
        requires
            start <= end <= self@.len(),
        ensures
            r@ == self@.take(start as int) + text@ + self@.skip(end as int),
            r.wf(),
    {
        let mut buf = copy_chars(&self.buf.as_slice()[0..start]);
        for c in it: text.chars()
            invariant
                buf@ == self@.take(start as int) + it.seq().take(it.index() as int),
                it.seq() == text@,
        {
            buf.push(c);
            assert(buf@ =~= self@.take(start as int) + it.seq().take(it.index() as int + 1));
        }
        assert(text@.take(text@.len() as int) =~= text@);
        let mut rest = copy_chars(&self.buf.as_slice()[end..self.buf.len()]);
        buf.append(&mut rest);
        Self::from_buf(buf)
    }

    /// Where the run of same-class characters starting at `x` ends.
    pub fn next_word_break(&self, x: Coord) -> (r: Coord)
        ensures
            is_next_word_break(self@, x as int, r as int),
    {
        let len = self.buf.len();
        if len == 0 || x >= len - 1 {
            len
        } else {
            let start_class = classify(self.buf[x]);
            let mut j: usize = x + 1;
            while j < len
                invariant
                    x + 1 <= j <= len,
                    len == self@.len(),
                    start_class == classify_spec(self@[x as int]),
                    forall|k: int| x < k < j ==> classify_spec(#[trigger] self@[k]) == start_class,
                decreases len - j,
            {
                if classify(self.buf[j]) != start_class {
                    return j;
                }
                j = j + 1;
            }
            len
        }
    }

    /// Where the run of same-class characters ending just before `x` starts.
    pub fn prev_word_break(&self, x: Coord) -> (r: Coord)
        ensures
            is_prev_word_break(self@, x as int, r as int),
    {
        let xc = if x > self.buf.len() {
            self.buf.len()
        } else {
            x
        };
        if xc <= 1 {
            0
        } else {
            let start_class = classify(self.buf[xc - 1]);
            let mut k: usize = xc;
            while k > 0
                invariant
                    k <= xc,
                    xc == (if x > self@.len() {
                        self@.len() as usize
                    } else {
                        x
                    }),
                    xc >= 2,
                    start_class == classify_spec(self@[xc - 1]),
                    forall|j: int| k <= j < xc ==> classify_spec(#[trigger] self@[j]) == start_class,
                decreases k,
            {
                if classify(self.buf[k - 1]) != start_class {
                    return k;
                }
                k = k - 1;
            }
            0
        }
    }

    /// The rendering from column `x` on (`x` clamped into the rendering).
    pub fn render_chars_from(&self, x: Coord) -> (s: &[char])
        ensures
            s@ == self.render_view().skip(
                clamp_int(x as int, 0, self.render_view().len() as int),
            ),
    {
        let xc = if x > self.render.len() {
            self.render.len()
        } else {
            x
        };
        &self.render.as_slice()[xc..self.render.len()]
    }
}

} // verus!
