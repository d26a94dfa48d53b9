use vstd::prelude::*;
use crate::classify::{classify, classify_spec, CharType};
use crate::noun::Noun;
use crate::rel::Rel;
use crate::row::{is_next_word_break, Row};
use crate::types::{clamp_int, pos_lt, Coord, Pos};
use crate::undo::{
    change_valid, changes_wf, history_ok, exec_change, lemma_changes_wf_push, lemma_changes_wf_update,
    lemma_exec_change_wf, ops_wf, rows_wf, Change, ChangeModel, ChangeOp, ChangeStack, ChangeTracker,
};

verus! {

/// A document: its rows, its file name, whether it changed since it was
/// opened, and its undo history.
#[derive(Debug)]
pub struct Doc {
    filename: Option<String>,
    tracked_rows: Vec<Row>,
    dirty: bool,
    change_stack: ChangeStack,
}

/// The characters of each row.
pub open spec fn rows_view(rows: Seq<Row>) -> Seq<Seq<char>> {
    rows.map_values(|r: Row| r@)
}

impl Doc {
    pub closed spec fn rows(&self) -> Seq<Row> {
        self.tracked_rows@
    }

    pub closed spec fn filename(&self) -> Option<String> {
        self.filename
    }

    pub closed spec fn is_dirty_spec(&self) -> bool {
        self.dirty
    }

    /// The recorded changes and how many of them are in effect.
    pub closed spec fn history(&self) -> (Seq<ChangeModel>, int) {
        self.change_stack.model()
    }

    /// The history can be undone and redone from the current rows, and every
    /// row, current or recorded, has an up-to-date rendering.
    pub open spec fn wf(&self) -> bool {
        &&& history_ok(self.rows(), self.history().0, self.history().1)
        &&& rows_wf(self.rows())
        &&& changes_wf(self.history().0)
    }

    /// A document of one empty row, with no file name and no history.
    pub fn empty() -> (d: Self)
        ensures
            d.rows().len() == 1,
            d.rows()[0]@ == Seq::<char>::empty(),
            d.rows()[0].wf(),
            d.filename() == None::<String>,
            !d.is_dirty_spec(),
            d.history() == (Seq::<ChangeModel>::empty(), 0int),
            d.wf(),
    {
        let mut rows: Vec<Row> = Vec::new();
        rows.push(Row::new_empty());
        Doc { filename: None, tracked_rows: rows, dirty: false, change_stack: ChangeStack::default() }
    }

    /// A document named `filename` holding `lines`, with no history.
    pub fn open(filename: String, lines: &Vec<String>) -> (d: Self)
        ensures
            d.rows().len() == lines@.len(),
            forall|i: int| 0 <= i < lines@.len() ==> (#[trigger] d.rows()[i])@ == lines@[i]@ && d.rows()[i].wf(),
            d.filename() == Some(filename),
            !d.is_dirty_spec(),
            d.history() == (Seq::<ChangeModel>::empty(), 0int),
            d.wf(),
    {
        let mut doc = Doc::empty();
        doc.change_stack.clear();
        doc.tracked_rows.truncate(0);
        let mut i: usize = 0;
        while i < lines.len()
            invariant
                i <= lines@.len(),
                doc.tracked_rows@.len() == i,
                forall|k: int| 0 <= k < i ==> (#[trigger] doc.tracked_rows@[k])@ == lines@[k]@ && doc.tracked_rows@[k].wf(),
                doc.change_stack.model() == (Seq::<ChangeModel>::empty(), 0int),
            decreases lines@.len() - i,
        {
            let row = Row::from_line(lines[i].as_str());
            doc.tracked_rows.push(row);
            i = i + 1;
        }
        doc.filename = Some(filename);
        doc.dirty = false;
        doc
    }

    pub fn new_change_tracker(&mut self, pos: Pos) -> (t: ChangeTracker)
        ensures
            *t.doc == *old(self),
            *final(self) == *final(t.doc),
            t.before_cursor == pos,
            t.after_cursor == None::<Pos>,
            t.ops@.len() == 0,
    {
        ChangeTracker::begin_changes(self, pos)
    }

    pub fn is_empty(&self) -> (b: bool)
        ensures
            b == (self.rows().len() == 0),
    {
        self.tracked_rows.len() == 0
    }

    pub fn is_dirty(&self) -> (b: bool)
        ensures
            b == self.is_dirty_spec(),
    {
        self.dirty
    }

    pub fn get_filename(&self) -> (f: Option<&str>)
        ensures
            match self.filename() {
                Some(name) => f is Some && f->0@ == name@,
                None => f is None,
            },
    {
        match &self.filename {
            Some(filename) => Some(filename.as_str()),
            None => None,
        }
    }

    /// How many recorded changes are in effect.
    pub fn history_index(&self) -> (i: usize)
        ensures
            i == self.history().1,
    {
        self.change_stack.index()
    }

    pub fn line_count(&self) -> (n: usize)
        ensures
            n == self.rows().len(),
    {
        self.tracked_rows.len()
    }

    pub fn get_row(&self, y: Coord) -> (r: Option<&Row>)
        ensures
            y < self.rows().len() ==> r == Some(&self.rows()[y as int]),
            y >= self.rows().len() ==> r is None,
    {
        if y < self.tracked_rows.len() {
            Some(&self.tracked_rows[y])
        } else {
            None
        }
    }

    /// Replaces the rows in `range` by `rows`; afterwards `rows` holds the
    /// rows that were replaced and `range` where the new rows stand, so that
    /// a second call undoes the first.
    pub fn swap_rows(&mut self, range: &mut core::ops::Range<Coord>, rows: &mut Vec<Row>)
        requires
            old(range).start <= old(range).end <= old(self).rows().len(),
        ensures
            final(self).rows() == old(self).rows().take(old(range).start as int) + old(rows)@
                + old(self).rows().skip(old(range).end as int),
            final(rows)@ == old(self).rows().subrange(
                old(range).start as int,
                old(range).end as int,
            ),
            final(range).start == old(range).start,
            final(range).end == old(range).start + old(rows)@.len(),
            final(self).filename() == old(self).filename(),
            final(self).is_dirty_spec() == old(self).is_dirty_spec(),
            final(self).history() == old(self).history(),
    {
        let start = range.start;
        let end = range.end;
        let mut tail = self.tracked_rows.split_off(end);
        let mut mid = self.tracked_rows.split_off(start);
        self.tracked_rows.append(rows);
        let new_end = self.tracked_rows.len();
        self.tracked_rows.append(&mut tail);
        std::mem::swap(rows, &mut mid);
        *range = start..new_end;
    }

    /// Undoes the last change, if any; returns the cursor it leaves.
    pub fn pop_change(&mut self) -> (p: Option<Pos>)
        requires
            old(self).wf(),
        ensures
            final(self).wf(),
            ({
                let (cs, i) = old(self).history();
                if i > 0 {
                    let (r1, c1) = exec_change(old(self).rows(), cs[i - 1]);
                    &&& final(self).rows() == r1
                    &&& final(self).history() == (cs.update(i - 1, c1), i - 1)
                    &&& p == Some(cs[i - 1].2)
                    &&& final(self).is_dirty_spec()
                } else {
                    &&& final(self).rows() == old(self).rows()
                    &&& final(self).history() == old(self).history()
                    &&& p == None::<Pos>
                    &&& final(self).is_dirty_spec() == old(self).is_dirty_spec()
                }
            }),
            final(self).filename() == old(self).filename(),
    {
        let ghost rows0 = self.rows();
        let ghost (cs0, i0) = self.history();
        let mut temp = ChangeStack::default();
        std::mem::swap(&mut self.change_stack, &mut temp);
        let pos = temp.pop(self);
        std::mem::swap(&mut self.change_stack, &mut temp);
        proof {
            if i0 > 0 {
                assert(ops_wf(cs0[i0 - 1].0));
                assert(change_valid(rows0, cs0[i0 - 1]));
                lemma_exec_change_wf(rows0, cs0[i0 - 1]);
                lemma_changes_wf_update(cs0, i0 - 1, exec_change(rows0, cs0[i0 - 1]).1);
            }
        }
        if pos.is_some() {
            self.dirty = true;
        }
        pos
    }

    /// Redoes the first undone change, if any; returns the cursor it leaves.
    pub fn redo_change(&mut self) -> (p: Option<Pos>)
        requires
            old(self).wf(),
        ensures
            final(self).wf(),
            ({
                let (cs, i) = old(self).history();
                if i < cs.len() {
                    let (r1, c1) = exec_change(old(self).rows(), cs[i]);
                    &&& final(self).rows() == r1
                    &&& final(self).history() == (cs.update(i, c1), i + 1)
                    &&& p == Some(cs[i].2)
                    &&& final(self).is_dirty_spec()
                } else {
                    &&& final(self).rows() == old(self).rows()
                    &&& final(self).history() == old(self).history()
                    &&& p == None::<Pos>
                    &&& final(self).is_dirty_spec() == old(self).is_dirty_spec()
                }
            }),
            final(self).filename() == old(self).filename(),
    {
        let ghost rows0 = self.rows();
        let ghost (cs0, i0) = self.history();
        let mut temp = ChangeStack::default();
        std::mem::swap(&mut self.change_stack, &mut temp);
        let pos = temp.redo(self);
        std::mem::swap(&mut self.change_stack, &mut temp);
        proof {
            if i0 < cs0.len() {
                assert(ops_wf(cs0[i0].0));
                assert(change_valid(rows0, cs0[i0]));
                lemma_exec_change_wf(rows0, cs0[i0]);
                lemma_changes_wf_update(cs0, i0, exec_change(rows0, cs0[i0]).1);
            }
        }
        if pos.is_some() {
            self.dirty = true;
        }
        pos
    }

    /// Executes `change` and records it as the latest change, forgetting
    /// the undone ones; returns the cursor that it leaves.
    pub fn push_change(&mut self, change: Change) -> (p: Pos)
        requires
            old(self).wf(),
            change_valid(old(self).rows(), change.model()),
            ops_wf(change.model().0),
            old(self).history().1 < usize::MAX,
        ensures
            final(self).wf(),
            ({
                let (r1, c1) = exec_change(old(self).rows(), change.model());
                let (cs, i) = old(self).history();
                &&& final(self).rows() == r1
                &&& final(self).history() == (cs.take(i).push(c1), i + 1)
            }),
            p == change.model().2,
            final(self).is_dirty_spec(),
            final(self).filename() == old(self).filename(),
    {
        let ghost rows0 = self.rows();
        let ghost (cs0, i0) = self.history();
        let ghost c0 = change.model();
        let mut temp = ChangeStack::default();
        std::mem::swap(&mut self.change_stack, &mut temp);
        let pos = temp.push(self, change);
        std::mem::swap(&mut self.change_stack, &mut temp);
        proof {
            lemma_exec_change_wf(rows0, c0);
            lemma_changes_wf_push(cs0, i0, exec_change(rows0, c0).1);
        }
        self.dirty = true;
        pos
    }
}


/// The end of the deletion or motion at `x` in `row`: the end of the row,
/// the next character, or the next word break.
pub open spec fn noun_end(row: Seq<char>, x: int, noun: Noun, wb: int) -> int {
    match noun {
        Noun::Line => row.len() as int,
        Noun::Char => if x + 1 < row.len() {
            x + 1
        } else {
            row.len() as int
        },
        Noun::Word => wb,
    }
}

impl Doc {
    /// The replacement that splits the cursor's row in two at the cursor
    /// (clamped into the row), and the position that starts the new row.
    pub fn split_newline(&self, cursor: Pos) -> (r: (ChangeOp, Pos))
        requires
            cursor.y < self.rows().len(),
        ensures
            ({
                let row = self.rows()[cursor.y as int]@;
                let x = clamp_int(cursor.x as int, 0, row.len() as int);
                &&& r.0.range.start == cursor.y
                &&& r.0.range.end == cursor.y + 1
                &&& r.0.rows@.len() == 2
                &&& r.0.rows@[0]@ == row.take(x)
                &&& r.0.rows@[1]@ == row.skip(x)
                &&& r.0.rows@[0].wf() && r.0.rows@[1].wf()
                &&& r.1 == Pos { x: 0, y: (cursor.y + 1) as usize }
            }),
    {
        let _n = self.tracked_rows.len();
        let row = &self.tracked_rows[cursor.y];
        let x = crate::types::clamp_usize(cursor.x, 0, row.len());
        let a = Row::from_chars(&row.as_slice()[0..x]);
        let b = Row::from_chars(&row.as_slice()[x..row.len()]);
        let mut rows: Vec<Row> = Vec::new();
        rows.push(a);
        rows.push(b);
        (ChangeOp { range: cursor.y..cursor.y + 1, rows }, Pos { x: 0, y: cursor.y + 1 })
    }

    /// The replacement that inserts an empty row before row `y`.
    pub fn insert_newline(&self, y: Coord) -> (op: ChangeOp)
        ensures
            op.range.start == y,
            op.range.end == y,
            op.rows@.len() == 1,
            op.rows@[0]@ == Seq::<char>::empty(),
            op.rows@[0].wf(),
    {
        let mut rows: Vec<Row> = Vec::new();
        proof {
            reveal_strlit("");
        }
        rows.push(Row::from_line(""));
        ChangeOp { range: y..y, rows }
    }

    /// The replacement that inserts `ch` at the cursor; past the last row it
    /// inserts a new row holding `ch`.
    pub fn insert_char(&self, cursor: Pos, ch: char) -> (op: ChangeOp)
        requires
            cursor.y < self.rows().len() ==> cursor.x <= self.rows()[cursor.y as int]@.len(),
        ensures
            op.rows@.len() == 1,
            op.rows@[0].wf(),
            op.range.start == cursor.y,
            cursor.y < self.rows().len() ==> {
                &&& op.range.end == cursor.y + 1
                &&& op.rows@[0]@ == self.rows()[cursor.y as int]@.insert(cursor.x as int, ch)
            },
            cursor.y >= self.rows().len() ==> {
                &&& op.range.end == cursor.y
                &&& op.rows@[0]@ == seq![ch]
            },
    {
        let mut rows: Vec<Row> = Vec::new();
        if cursor.y < self.tracked_rows.len() {
            let row = &self.tracked_rows[cursor.y];
            rows.push(row.insert_char(cursor.x, ch));
            ChangeOp { range: cursor.y..cursor.y + 1, rows }
        } else {
            let mut buf: Vec<char> = Vec::new();
            buf.push(ch);
            rows.push(Row::from_chars(buf.as_slice()));
            ChangeOp { range: cursor.y..cursor.y, rows }
        }
    }

    /// The replacement that deletes forwards from the cursor: to the end of
    /// the row, one character, or to the next word break. None when the row
    /// is empty or the cursor is on or past its last character.
    pub fn delete_forwards(&self, cursor: Pos, noun: Noun) -> (r: Option<ChangeOp>)
        requires
            cursor.y < self.rows().len(),
        ensures
            ({
                let row = self.rows()[cursor.y as int]@;
                if row.len() == 0 || cursor.x >= row.len() - 1 {
                    r is None
                } else {
                    exists|wb: int|
                        is_next_word_break(row, cursor.x as int, wb) && {
                            let end = noun_end(row, cursor.x as int, noun, wb);
                            &&& r matches Some(op)
                            &&& op.range.start == cursor.y
                            &&& op.range.end == cursor.y + 1
                            &&& op.rows@.len() == 1
                            &&& op.rows@[0].wf()
                            &&& op.rows@[0]@ == row.take(cursor.x as int) + row.skip(end)
                        }
                }
            }),
    {
        let _n = self.tracked_rows.len();
        let row = &self.tracked_rows[cursor.y];
        if row.is_empty() || cursor.x >= row.len() - 1 {
            return None;
        }
        let wb = row.next_word_break(cursor.x);
        let end_index = match noun {
            Noun::Line => row.len(),
            Noun::Char => if cursor.x + 1 < row.len() {
                cursor.x + 1
            } else {
                row.len()
            },
            Noun::Word => wb,
        };
        let mut rows: Vec<Row> = Vec::new();
        let new_row = row.splice(cursor.x, end_index, "");
        proof {
            reveal_strlit("");
            assert(new_row@ =~= row@.take(cursor.x as int) + row@.skip(end_index as int));
        }
        rows.push(new_row);
        Some(ChangeOp { range: cursor.y..cursor.y + 1, rows })
    }

    /// The replacement that deletes from `start` up to `end` (in either
    /// order), joining their rows, and the position where the deletion
    /// starts; None when they are equal.
    pub fn delete_range(&self, start: Pos, end: Pos) -> (r: Option<(ChangeOp, Pos)>)
        requires
            start.y < self.rows().len(),
            end.y < self.rows().len(),
            start.x <= self.rows()[start.y as int]@.len(),
            end.x <= self.rows()[end.y as int]@.len(),
        ensures
            start == end ==> r is None,
            start != end ==> {
                let (s, e) = if pos_lt(end, start) {
                    (end, start)
                } else {
                    (start, end)
                };
                &&& r matches Some((op, p))
                &&& p == s
                &&& op.range.start == s.y
                &&& op.range.end == e.y + 1
                &&& op.rows@.len() == 1
                &&& op.rows@[0].wf()
                &&& op.rows@[0]@ == self.rows()[s.y as int]@.take(s.x as int) + self.rows()[e.y
                    as int]@.skip(e.x as int)
            },
    {
        let _n = self.tracked_rows.len();
        if start == end {
            return None;
        }
        let (s, e) = if end.lt(&start) {
            (end, start)
        } else {
            (start, end)
        };
        let new_row = Row::joined_rows(&self.tracked_rows[s.y], &self.tracked_rows[e.y], s.x, e.x);
        let mut rows: Vec<Row> = Vec::new();
        rows.push(new_row);
        Some((ChangeOp { range: s.y..e.y + 1, rows }, s))
    }

    /// The positions that a forward motion from the cursor spans: to the end
    /// of the row, one character, or to the next word break. Both are the
    /// cursor when the row is empty or the cursor is on or past its last
    /// character.
    pub fn find_range(&self, cursor: Pos, noun: Noun, rel: Rel) -> (r: (Pos, Pos))
        requires
            cursor.y < self.rows().len(),
            rel == Rel::Next,
        ensures
            ({
                let row = self.rows()[cursor.y as int]@;
                if row.len() == 0 || cursor.x >= row.len() - 1 {
                    r == (cursor, cursor)
                } else {
                    exists|wb: int|
                        is_next_word_break(row, cursor.x as int, wb) && r == (
                            cursor,
                            Pos { x: noun_end(row, cursor.x as int, noun, wb) as usize, y: cursor.y },
                        )
                }
            }),
    {
        let row = &self.tracked_rows[cursor.y];
        if row.is_empty() || cursor.x >= row.len() - 1 {
            return (cursor, cursor);
        }
        let wb = row.next_word_break(cursor.x);
        let end_index = match noun {
            Noun::Line => row.len(),
            Noun::Char => if cursor.x + 1 < row.len() {
                cursor.x + 1
            } else {
                row.len()
            },
            Noun::Word => wb,
        };
        (cursor, Pos { x: end_index, y: cursor.y })
    }
}


/// The characters of row `pos.y` from column `pos.x`, at most `len` of them
/// (nothing past the last row).
pub open spec fn line_slice(rows: Seq<Row>, pos: Pos, len: int) -> Seq<char> {
    if pos.y < rows.len() {
        let r = rows[pos.y as int]@;
        r.subrange(pos.x as int, clamp_int(pos.x + len, pos.x as int, r.len() as int))
    } else {
        Seq::empty()
    }
}

impl Doc {
    /// The rendering of row `pos.y` from column `pos.x` (nothing past the
    /// last row).
    pub fn render_line(&self, pos: Pos) -> (s: &[char])
        ensures
            pos.y < self.rows().len() ==> s@ == self.rows()[pos.y as int].render_view().skip(
                clamp_int(pos.x as int, 0, self.rows()[pos.y as int].render_view().len() as int),
            ),
            pos.y >= self.rows().len() ==> s@.len() == 0,
    {
        if pos.y < self.tracked_rows.len() {
            self.tracked_rows[pos.y].render_chars_from(pos.x)
        } else {
            &[]
        }
    }

    /// The characters of row `pos.y` from column `pos.x`, at most `len` of
    /// them (nothing past the last row).
    pub fn render_line_slice(&self, pos: Pos, len: usize) -> (s: &[char])
        requires
            pos.x + len <= usize::MAX,
            pos.y < self.rows().len() ==> pos.x <= self.rows()[pos.y as int]@.len(),
        ensures
            s@ == line_slice(self.rows(), pos, len as int),
    {
        if pos.y < self.tracked_rows.len() {
            self.tracked_rows[pos.y].get_slice(pos.x, pos.x + len)
        } else {
            &[]
        }
    }
}

/// A character of a document and where it stands.
#[derive(Clone, Copy, Debug, PartialEq, Eq, Structural)]
pub struct CharPos {
    pub ch: char,
    pub pos: Pos,
}

/// The character at index `i` of a row, its end reading as a newline.
pub open spec fn line_char(r: Seq<char>, i: int) -> char {
    if i < r.len() {
        r[i]
    } else {
        '\n'
    }
}

/// The character at index `i` of row `y`, with its position.
pub open spec fn line_cp(r: Seq<char>, y: int, i: int) -> CharPos {
    CharPos { ch: line_char(r, i), pos: Pos { x: i as usize, y: y as usize } }
}

/// The characters of row `y`, each with its position, followed by the
/// newline that ends the row.
pub open spec fn line_stream(r: Seq<char>, y: int) -> Seq<CharPos> {
    Seq::new(r.len() + 1, |i: int| line_cp(r, y, i))
}

/// The characters of the rows from `y` on, each row ended by a newline.
pub open spec fn rest_stream(rows: Seq<Row>, y: int) -> Seq<CharPos>
    decreases rows.len() - y,
{
    if y < 0 || y >= rows.len() {
        Seq::empty()
    } else {
        line_stream(rows[y]@, y) + rest_stream(rows, y + 1)
    }
}

/// The characters of the rows before `y`, from the last to the first, each
/// row read backwards from its newline.
pub open spec fn back_stream(rows: Seq<Row>, y: int) -> Seq<CharPos>
    decreases y,
{
    if y <= 0 || y > rows.len() {
        Seq::empty()
    } else {
        line_stream(rows[y - 1]@, y - 1).reverse() + back_stream(rows, y - 1)
    }
}

/// The characters of a document from `pos` on.
pub open spec fn stream_from(rows: Seq<Row>, pos: Pos) -> Seq<CharPos> {
    if pos.y < rows.len() {
        line_stream(rows[pos.y as int]@, pos.y as int).skip(pos.x as int) + rest_stream(
            rows,
            pos.y + 1,
        )
    } else {
        Seq::empty()
    }
}

/// The characters of a document from `pos` back to its start; from just
/// past the last row, the newline ending the last row comes first and once
/// more as the start of that row read backwards.
pub open spec fn stream_back_from(rows: Seq<Row>, pos: Pos) -> Seq<CharPos> {
    if pos.y < rows.len() {
        line_stream(rows[pos.y as int]@, pos.y as int).take(pos.x + 1).reverse() + back_stream(
            rows,
            pos.y as int,
        )
    } else if pos.y == rows.len() && pos.y > 0 {
        seq![CharPos { ch: '\n', pos: Pos { x: rows[pos.y - 1]@.len() as usize, y: (pos.y - 1) as usize } }]
            + back_stream(rows, pos.y as int)
    } else {
        Seq::empty()
    }
}

/// Scanning forwards from index `k`: the position of the first character
/// that starts a new run of text or punctuation, or of the last character.
pub open spec fn scan_next_word(s: Seq<CharPos>, k: int) -> Pos
    decreases s.len() - k,
{
    if k >= s.len() || k <= 0 {
        s.last().pos
    } else if classify_spec(s[k].ch) != classify_spec(s[k - 1].ch) && classify_spec(s[k].ch)
        != CharType::Space {
        s[k].pos
    } else {
        scan_next_word(s, k + 1)
    }
}

/// Scanning from index `k`: the position of the character just before the
/// first one that starts a run of white space, or of the last character.
pub open spec fn scan_prior_word(s: Seq<CharPos>, k: int) -> Pos
    decreases s.len() - k,
{
    if k >= s.len() || k <= 0 {
        s.last().pos
    } else if classify_spec(s[k].ch) != classify_spec(s[k - 1].ch) && classify_spec(s[k].ch)
        == CharType::Space {
        s[k - 1].pos
    } else {
        scan_prior_word(s, k + 1)
    }
}

/// Iterates over the rows of a document.
pub struct IterLines<'a> {
    pub rows: &'a [Row],
    pub next_index: usize,
}

impl<'a> IterLines<'a> {
    pub fn next(&mut self) -> (r: Option<&'a Row>)
        ensures
            final(self).rows@ == old(self).rows@,
            old(self).next_index < old(self).rows@.len() ==> r == Some(&old(self).rows@[old(self).next_index as int])
                && final(self).next_index == old(self).next_index + 1,
            old(self).next_index >= old(self).rows@.len() ==> r is None && final(self).next_index
                == old(self).next_index,
    {
        if self.next_index < self.rows.len() {
            let r = &self.rows[self.next_index];
            self.next_index = self.next_index + 1;
            Some(r)
        } else {
            None
        }
    }
}

/// Iterates forwards over the characters of a document, each row ended by a
/// newline.
pub struct IterChars<'a> {
    pub rows: &'a [Row],
    pub row: Option<&'a Row>,
    pub pos: Pos,
    pub y_offset: Coord,
}

impl<'a> IterChars<'a> {
    /// The iterator is in a state that `next` accepts.
    pub open spec fn wf(&self) -> bool {
        &&& self.y_offset == 0
        &&& self.row matches Some(r) ==> self.pos.x <= r@.len() && self.pos.y < usize::MAX
    }

    /// The characters still to come.
    pub open spec fn remaining(&self) -> Seq<CharPos> {
        match self.row {
            Some(r) => line_stream(r@, self.pos.y as int).skip(self.pos.x as int) + rest_stream(
                self.rows@,
                self.pos.y + 1,
            ),
            None => Seq::empty(),
        }
    }

    /// The same state, read backwards.
    fn rev(self) -> (r: IterCharsRev<'a>)
        ensures
            r.rows == self.rows,
            r.row == self.row,
            r.pos == self.pos,
            r.y_offset == self.y_offset,
    {
        IterCharsRev { rows: self.rows, row: self.row, pos: self.pos, y_offset: self.y_offset }
    }

    /// Steps past the current character: along the row, or to the start of
    /// the next row after the row's end.
    fn advance(&mut self)
        requires
            old(self).wf(),
        ensures
            final(self).wf(),
            final(self).rows == old(self).rows,
            final(self).remaining() == if old(self).remaining().len() > 0 {
                old(self).remaining().drop_first()
            } else {
                old(self).remaining()
            },
    {
        let ghost before = self.remaining();
        if let Some(row) = self.row {
            if self.pos.x == row.len() {
                let ghost y = self.pos.y as int;
                self.pos.x = 0;
                self.pos.y = self.pos.y + 1;
                self.row = if self.pos.y < self.rows.len() {
                    Some(&self.rows[self.pos.y])
                } else {
                    None
                };
                proof {
                    let ls = line_stream(row@, y);
                    assert(ls.skip(row@.len() as int).len() == 1);
                    if self.pos.y < self.rows@.len() {
                        assert(line_stream(self.rows@[y + 1]@, y + 1).skip(0) =~= line_stream(
                            self.rows@[y + 1]@,
                            y + 1,
                        ));
                        assert(self.remaining() =~= before.drop_first());
                    } else {
                        assert(before.drop_first() =~= Seq::<CharPos>::empty());
                    }
                }
            } else {
                self.pos.x = self.pos.x + 1;
                proof {
                    let ls = line_stream(row@, self.pos.y as int);
                    assert(ls.skip(self.pos.x as int) =~= ls.skip(self.pos.x - 1).drop_first());
                    assert(self.remaining() =~= before.drop_first());
                }
            }
        }
    }

    /// The next character and its position.
    pub fn next(&mut self) -> (r: Option<CharPos>)
        requires
            old(self).wf(),
        ensures
            final(self).wf(),
            final(self).rows == old(self).rows,
            old(self).remaining().len() > 0 ==> r == Some(old(self).remaining()[0])
                && final(self).remaining() == old(self).remaining().drop_first(),
            old(self).remaining().len() == 0 ==> r is None && final(self).remaining()
                == old(self).remaining(),
    {
        if let Some(row) = self.row {
            let ch = row.char_at(self.pos.x);
            let ch = match ch {
                Some(c) => c,
                None => { return None; },
            };
            let ret = Some(CharPos { ch, pos: Pos { x: self.pos.x, y: self.pos.y + self.y_offset } });
            self.advance();
            return ret;
        }
        None
    }
}

/// Iterates backwards over the characters of a document.
pub struct IterCharsRev<'a> {
    pub rows: &'a [Row],
    pub row: Option<&'a Row>,
    pub pos: Pos,
    pub y_offset: Coord,
}

impl<'a> IterCharsRev<'a> {
    /// The iterator is in a state that `next` accepts: its row is the
    /// document's row at its position, and it ends.
    pub open spec fn wf(&self) -> bool {
        &&& self.y_offset == 0
        &&& self.row matches Some(r) ==> {
            &&& self.pos.y < self.rows@.len()
            &&& r == &self.rows@[self.pos.y as int]
            &&& self.pos.x <= r@.len()
        }
        &&& self.row is None && self.pos.y == self.rows@.len() ==> self.rows@.len() > 0
    }

    /// The characters still to come.
    pub open spec fn remaining(&self) -> Seq<CharPos> {
        match self.row {
            Some(r) => line_stream(r@, self.pos.y as int).take(self.pos.x + 1).reverse()
                + back_stream(self.rows@, self.pos.y as int),
            None => if self.pos.y == self.rows@.len() {
                stream_back_from(self.rows@, self.pos)
            } else {
                Seq::empty()
            },
        }
    }

    /// Steps back over the current character: along the row, or to the end
    /// of the previous row after the row's start.
    fn advance(&mut self)
        requires
            old(self).wf(),
            old(self).row is Some,
        ensures
            final(self).wf(),
            final(self).rows == old(self).rows,
            final(self).remaining() == old(self).remaining().drop_first(),
    {
        let ghost before = self.remaining();
        let ghost r0 = self.row.unwrap();
        if self.pos.x == 0 {
            if self.pos.y == 0 {
                self.row = None;
                proof {
                    assert(before.drop_first() =~= Seq::<CharPos>::empty());
                }
                return ;
            }
            self.pos.y = self.pos.y - 1;
            let r = &self.rows[self.pos.y];
            self.row = Some(r);
            self.pos.x = r.len();
            proof {
                let ls = line_stream(r@, self.pos.y as int);
                assert(ls.take(self.pos.x + 1) =~= ls);
                assert(self.remaining() =~= before.drop_first());
            }
        } else {
            self.pos.x = self.pos.x - 1;
            proof {
                let ls = line_stream(r0@, self.pos.y as int);
                assert(ls.take(self.pos.x + 1).reverse() =~= ls.take(self.pos.x + 2).reverse().drop_first());
                assert(self.remaining() =~= before.drop_first());
            }
        }
    }

    /// The next character back and its position.
    pub fn next(&mut self) -> (r: Option<CharPos>)
        requires
            old(self).wf(),
        ensures
            final(self).wf(),
            final(self).rows == old(self).rows,
            old(self).remaining().len() > 0 ==> r == Some(old(self).remaining()[0])
                && final(self).remaining() == old(self).remaining().drop_first(),
            old(self).remaining().len() == 0 ==> r is None && final(self).remaining()
                == old(self).remaining(),
    {
        match self.row {
            None => {
                if self.pos.y == self.rows.len() {
                    let ghost before = self.remaining();
                    if self.pos.y > 0 {
                        self.pos.y = self.pos.y - 1;
                        let r = &self.rows[self.pos.y];
                        self.row = Some(r);
                        self.pos.x = r.len();
                        proof {
                            let ls = line_stream(r@, self.pos.y as int);
                            assert(ls.take(self.pos.x + 1) =~= ls);
                            assert(self.remaining() =~= before.drop_first());
                        }
                    }
                    Some(CharPos { ch: '\n', pos: Pos { x: self.pos.x, y: self.pos.y + self.y_offset } })
                } else {
                    None
                }
            },
            Some(row) => {
                let ch = match row.char_at(self.pos.x) {
                    Some(c) => c,
                    None => { return None; },
                };
                let ret = Some(CharPos { ch, pos: Pos { x: self.pos.x, y: self.pos.y + self.y_offset } });
                self.advance();
                ret
            },
        }
    }
}

impl Doc {
    /// The rows from row `y` on.
    pub fn iter_lines(&self, y: Coord) -> (it: IterLines)
        requires
            y <= self.rows().len(),
        ensures
            it.rows@ == self.rows().skip(y as int),
            it.next_index == 0,
    {
        IterLines { rows: &self.tracked_rows.as_slice()[y..self.tracked_rows.len()], next_index: 0 }
    }

    /// The characters from `pos` on.
    pub fn iter_from(&self, pos: Pos) -> (it: IterChars)
        requires
            pos.y < self.rows().len() ==> pos.x <= self.rows()[pos.y as int]@.len(),
        ensures
            it.wf(),
            it.remaining() == stream_from(self.rows(), pos),
            it.rows@ == self.rows(),
            it.pos == pos,
            it.row == (if pos.y < self.rows().len() {
                Some(&self.rows()[pos.y as int])
            } else {
                None
            }),
    {
        let _n = self.tracked_rows.len();
        let row = if pos.y < self.tracked_rows.len() {
            Some(&self.tracked_rows[pos.y])
        } else {
            None
        };
        IterChars { rows: self.tracked_rows.as_slice(), row, pos, y_offset: 0 }
    }

    /// The characters of row `y`, ended by a newline; nothing past the last
    /// row.
    pub fn iter_line(&self, y: Coord) -> (it: IterChars)
        ensures
            it.wf(),
            y < self.rows().len() ==> it.remaining() == line_stream(self.rows()[y as int]@, y as int),
            y >= self.rows().len() ==> it.remaining() == Seq::<CharPos>::empty(),
    {
        if self.tracked_rows.len() > y {
            let it = IterChars {
                rows: &self.tracked_rows.as_slice()[y..y + 1],
                row: Some(&self.tracked_rows[y]),
                pos: Pos { x: 0, y },
                y_offset: 0,
            };
            proof {
                let ls = line_stream(self.rows()[y as int]@, y as int);
                assert(ls.skip(0) =~= ls);
                assert(rest_stream(it.rows@, y + 1) =~= Seq::<CharPos>::empty());
                assert(it.remaining() =~= ls);
            }
            it
        } else {
            IterChars { rows: &[], row: None, pos: Pos::zero(), y_offset: 0 }
        }
    }

    /// Where the next word starts after `from`: the first character that
    /// starts a new run of text or punctuation, else the last character of
    /// the document; None when nothing follows `from`.
    pub fn get_next_word_pos(&self, from: Pos) -> (r: Option<Pos>)
        requires
            from.y < self.rows().len() ==> from.x <= self.rows()[from.y as int]@.len(),
        ensures
            ({
                let s = stream_from(self.rows(), from);
                if s.len() == 0 {
                    r is None
                } else {
                    r == Some(scan_next_word(s, 1))
                }
            }),
    {
        let mut iter = self.iter_from(from);
        let ghost s = iter.remaining();
        let first_cp = match iter.next() {
            Some(cp) => cp,
            None => { return None; },
        };
        let mut last_class = classify(first_cp.ch);
        let mut prior_pos = first_cp.pos;
        let ghost mut k: int = 1;
        loop
            invariant
                iter.wf(),
                s == stream_from(self.rows(), from),
                1 <= k <= s.len(),
                iter.remaining() == s.skip(k),
                last_class == classify_spec(s[k - 1].ch),
                prior_pos == s[k - 1].pos,
                scan_next_word(s, 1) == scan_next_word(s, k),
            ensures
                s == stream_from(self.rows(), from),
                s.len() > 0,
                prior_pos == scan_next_word(s, 1),
            decreases iter.remaining().len(),
        {
            let ghost rem = iter.remaining();
            let cp = match iter.next() {
                Some(cp) => cp,
                None => {
                    proof {
                        assert(k == s.len());
                        assert(scan_next_word(s, k) == s.last().pos);
                    }
                    break;
                },
            };
            proof {
                assert(s.skip(k)[0] == s[k]);
                assert(s.skip(k).drop_first() =~= s.skip(k + 1));
            }
            let new_class = classify(cp.ch);
            if new_class != last_class && new_class != CharType::Space {
                assert(scan_next_word(s, k) == s[k].pos);
                return Some(cp.pos);
            } else {
                assert(scan_next_word(s, k) == scan_next_word(s, k + 1));
                last_class = new_class;
                prior_pos = cp.pos;
            }
            proof {
                k = k + 1;
            }
        }
        Some(prior_pos)
    }

    /// Where the prior word starts before `from`: reading backwards past
    /// the character at `from`, the position just before the first change
    /// into white space, else the document's first character; None when
    /// fewer than two characters are read.
    pub fn get_prior_word_pos(&self, from: Pos) -> (r: Option<Pos>)
        requires
            from.y < self.rows().len() ==> from.x <= self.rows()[from.y as int]@.len(),
            self.rows().len() > 0 || from.y > 0,
        ensures
            ({
                let s = stream_back_from(self.rows(), from);
                if s.len() < 2 {
                    r is None
                } else {
                    r == Some(scan_prior_word(s.skip(1), 1))
                }
            }),
    {
        let mut iter = self.iter_from(from).rev();
        let ghost s = iter.remaining();
        proof {
            assert(s == stream_back_from(self.rows(), from));
        }
        match iter.next() {
            Some(_) => {},
            None => { return None; },
        }
        let ghost t = iter.remaining();
        let first_cp = match iter.next() {
            Some(cp) => cp,
            None => { return None; },
        };
        let mut last_class = classify(first_cp.ch);
        let mut prior_pos = first_cp.pos;
        let ghost mut k: int = 1;
        loop
            invariant
                iter.wf(),
                s == stream_back_from(self.rows(), from),
                t == s.skip(1),
                s.len() >= 2,
                1 <= k <= t.len(),
                iter.remaining() == t.skip(k),
                last_class == classify_spec(t[k - 1].ch),
                prior_pos == t[k - 1].pos,
                scan_prior_word(t, 1) == scan_prior_word(t, k),
            ensures
                s == stream_back_from(self.rows(), from),
                s.len() >= 2,
                t == s.skip(1),
                prior_pos == scan_prior_word(t, 1),
            decreases iter.remaining().len(),
        {
            let cp = match iter.next() {
                Some(cp) => cp,
                None => {
                    proof {
                        assert(k == t.len());
                        assert(scan_prior_word(t, k) == t.last().pos);
                    }
                    break;
                },
            };
            proof {
                assert(t.skip(k)[0] == t[k]);
                assert(t.skip(k).drop_first() =~= t.skip(k + 1));
            }
            let new_class = classify(cp.ch);
            if new_class != last_class && new_class == CharType::Space {
                assert(scan_prior_word(t, k) == t[k - 1].pos);
                return Some(prior_pos);
            } else {
                assert(scan_prior_word(t, k) == scan_prior_word(t, k + 1));
                last_class = new_class;
                prior_pos = cp.pos;
            }
            proof {
                k = k + 1;
            }
        }
        Some(prior_pos)
    }
}

} // verus!
