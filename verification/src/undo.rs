use vstd::prelude::*;
use crate::doc::Doc;
use crate::row::Row;
use crate::types::Pos;

verus! {

/// A replacement of the rows `start..end` by `rows`: `(start, end, rows)`.
pub type OpModel = (int, int, Seq<Row>);

/// A change: its replacements in order, the cursor before and after it.
pub type ChangeModel = (Seq<OpModel>, Pos, Pos);

/// The replacement fits the document.
pub open spec fn op_valid(rows: Seq<Row>, m: OpModel) -> bool {
    0 <= m.0 <= m.1 <= rows.len()
}

/// Replaces `rows[start..end]` by the new rows; gives the document and the
/// replacement that undoes it.
pub open spec fn apply_op(rows: Seq<Row>, m: OpModel) -> (Seq<Row>, OpModel) {
    (
        rows.take(m.0) + m.2 + rows.skip(m.1),
        (m.0, m.0 + m.2.len(), rows.subrange(m.0, m.1)),
    )
}

/// Applies the replacements in order; gives the document and, in the same
/// order, the replacements that undo each.
pub open spec fn apply_ops(rows: Seq<Row>, ms: Seq<OpModel>) -> (Seq<Row>, Seq<OpModel>)
    decreases ms.len(),
{
    if ms.len() == 0 {
        (rows, Seq::empty())
    } else {
        let (r1, o1) = apply_ops(rows, ms.drop_last());
        let (r2, m2) = apply_op(r1, ms.last());
        (r2, o1.push(m2))
    }
}

/// Each replacement fits the document that the ones before it leave.
pub open spec fn ops_valid(rows: Seq<Row>, ms: Seq<OpModel>) -> bool
    decreases ms.len(),
{
    if ms.len() == 0 {
        true
    } else {
        ops_valid(rows, ms.drop_last()) && op_valid(apply_ops(rows, ms.drop_last()).0, ms.last())
    }
}

/// The change can be executed on the document.
pub open spec fn change_valid(rows: Seq<Row>, c: ChangeModel) -> bool {
    ops_valid(rows, c.0)
}

/// Executes a change: the document it leaves, and the change flipped so
/// that executing it undoes this one (replacements undone in reverse order,
/// the cursors swapped).
pub open spec fn exec_change(rows: Seq<Row>, c: ChangeModel) -> (Seq<Row>, ChangeModel) {
    let (r, o) = apply_ops(rows, c.0);
    (r, (o.reverse(), c.2, c.1))
}

/// Every change below `i` can be undone, one after the other, from `rows`.
pub open spec fn undo_ok(rows: Seq<Row>, cs: Seq<ChangeModel>, i: int) -> bool
    decreases i,
{
    if i <= 0 {
        true
    } else {
        change_valid(rows, cs[i - 1]) && undo_ok(exec_change(rows, cs[i - 1]).0, cs, i - 1)
    }
}

/// Every change from `i` on can be redone, one after the other, from `rows`.
pub open spec fn redo_ok(rows: Seq<Row>, cs: Seq<ChangeModel>, i: int) -> bool
    decreases cs.len() - i,
{
    if i < 0 || i >= cs.len() {
        true
    } else {
        change_valid(rows, cs[i]) && redo_ok(exec_change(rows, cs[i]).0, cs, i + 1)
    }
}

/// The history and the document agree: undo and redo stay possible.
pub open spec fn history_ok(rows: Seq<Row>, cs: Seq<ChangeModel>, i: int) -> bool {
    0 <= i <= cs.len() && undo_ok(rows, cs, i) && redo_ok(rows, cs, i)
}

/// Every row's rendering is up to date.
pub open spec fn rows_wf(rows: Seq<Row>) -> bool {
    forall|j: int| 0 <= j < rows.len() ==> (#[trigger] rows[j]).wf()
}

/// Every replacement brings rows whose rendering is up to date.
pub open spec fn ops_wf(ms: Seq<OpModel>) -> bool {
    forall|j: int| 0 <= j < ms.len() ==> rows_wf((#[trigger] ms[j]).2)
}

/// Every recorded change brings rows whose rendering is up to date.
pub open spec fn changes_wf(cs: Seq<ChangeModel>) -> bool {
    forall|k: int| 0 <= k < cs.len() ==> ops_wf((#[trigger] cs[k]).0)
}

/// Replacements of up-to-date rows by up-to-date rows leave up-to-date rows,
/// and their undoing replacements bring up-to-date rows.
pub proof fn lemma_apply_ops_wf(rows: Seq<Row>, ms: Seq<OpModel>)
    requires
        rows_wf(rows),
        ops_wf(ms),
        ops_valid(rows, ms),
    ensures
        rows_wf(apply_ops(rows, ms).0),
        ops_wf(apply_ops(rows, ms).1),
        apply_ops(rows, ms).1.len() == ms.len(),
    decreases ms.len(),
{
    if ms.len() > 0 {
        let p = ms.drop_last();
        assert forall|j: int| 0 <= j < p.len() implies rows_wf((#[trigger] p[j]).2) by {
            assert(p[j] == ms[j]);
        }
        lemma_apply_ops_wf(rows, p);
        let (r1, o1) = apply_ops(rows, p);
        let m = ms.last();
        assert(rows_wf(m.2)) by {
            assert(m == ms[ms.len() - 1]);
        }
        let (r2, m2) = apply_op(r1, m);
        assert forall|j: int| 0 <= j < r2.len() implies (#[trigger] r2[j]).wf() by {
            if j < m.0 {
                assert(r2[j] == r1[j]);
            } else if j < m.0 + m.2.len() {
                assert(r2[j] == m.2[j - m.0]);
            } else {
                assert(r2[j] == r1[j - m.0 - m.2.len() + m.1]);
            }
        }
        assert forall|j: int| 0 <= j < m2.2.len() implies (#[trigger] m2.2[j]).wf() by {
            assert(m2.2[j] == r1[j + m.0]);
        }
        let o2 = o1.push(m2);
        assert forall|j: int| 0 <= j < o2.len() implies rows_wf((#[trigger] o2[j]).2) by {
            if j < o1.len() {
                assert(o2[j] == o1[j]);
            }
        }
    }
}

/// Executing a change keeps the rows and the change up to date.
pub proof fn lemma_exec_change_wf(rows: Seq<Row>, c: ChangeModel)
    requires
        rows_wf(rows),
        ops_wf(c.0),
        change_valid(rows, c),
    ensures
        rows_wf(exec_change(rows, c).0),
        ops_wf(exec_change(rows, c).1.0),
{
    lemma_apply_ops_wf(rows, c.0);
    let o = apply_ops(rows, c.0).1;
    assert forall|j: int| 0 <= j < o.reverse().len() implies rows_wf((#[trigger] o.reverse()[j]).2) by {
        assert(o.reverse()[j] == o[o.len() - 1 - j]);
    }
}

/// Replacing one recorded change by an up-to-date one keeps the history up to date.
pub proof fn lemma_changes_wf_update(cs: Seq<ChangeModel>, i: int, c: ChangeModel)
    requires
        changes_wf(cs),
        0 <= i < cs.len(),
        ops_wf(c.0),
    ensures
        changes_wf(cs.update(i, c)),
{
    assert forall|k: int| 0 <= k < cs.update(i, c).len() implies ops_wf((#[trigger] cs.update(i, c)[k]).0) by {
        if k != i {
            assert(cs.update(i, c)[k] == cs[k]);
        }
    }
}

/// Dropping the undone changes and recording a new up-to-date one keeps the
/// history up to date.
pub proof fn lemma_changes_wf_push(cs: Seq<ChangeModel>, i: int, c: ChangeModel)
    requires
        changes_wf(cs),
        0 <= i <= cs.len(),
        ops_wf(c.0),
    ensures
        changes_wf(cs.take(i).push(c)),
{
    let t = cs.take(i).push(c);
    assert forall|k: int| 0 <= k < t.len() implies ops_wf((#[trigger] t[k]).0) by {
        if k < i {
            assert(t[k] == cs[k]);
        }
    }
}

/// Applying `m` then `t` is applying `seq![m] + t`.
pub proof fn lemma_apply_cons(rows: Seq<Row>, m: OpModel, t: Seq<OpModel>)
    ensures
        ({
            let (r1, m1) = apply_op(rows, m);
            let (r2, o2) = apply_ops(r1, t);
            &&& apply_ops(rows, seq![m] + t) == (r2, seq![m1] + o2)
            &&& ops_valid(rows, seq![m] + t) == (op_valid(rows, m) && ops_valid(r1, t))
        }),
    decreases t.len(),
{
    let (r1, m1) = apply_op(rows, m);
    if t.len() == 0 {
        let s = seq![m] + t;
        assert(s.drop_last() =~= Seq::<OpModel>::empty());
        assert(s.last() == m);
        assert(apply_ops(rows, s.drop_last()) == (rows, Seq::<OpModel>::empty()));
        assert(ops_valid(rows, s.drop_last()));
        assert(apply_ops(rows, Seq::<OpModel>::empty()).1 =~= Seq::<OpModel>::empty());
        assert(Seq::<OpModel>::empty().push(m1) =~= seq![m1] + apply_ops(r1, t).1);
    } else {
        lemma_apply_cons(rows, m, t.drop_last());
        assert((seq![m] + t).drop_last() =~= seq![m] + t.drop_last());
        assert((seq![m] + t).last() == t.last());
        let (r2, o2) = apply_ops(r1, t.drop_last());
        assert((seq![m1] + o2).push(apply_op(r2, t.last()).1) =~= seq![m1] + o2.push(
            apply_op(r2, t.last()).1,
        ));
    }
}

/// Undoing a replacement restores the document and gives back the replacement.
pub proof fn lemma_apply_op_involution(rows: Seq<Row>, m: OpModel)
    requires
        op_valid(rows, m),
    ensures
        op_valid(apply_op(rows, m).0, apply_op(rows, m).1),
        apply_op(apply_op(rows, m).0, apply_op(rows, m).1) == (rows, m),
{
    let (r1, m1) = apply_op(rows, m);
    assert(r1.take(m1.0) + m1.2 + r1.skip(m1.1) =~= rows);
    assert(r1.subrange(m1.0, m1.1) =~= m.2);
}

/// Undoing a sequence of replacements, in reverse order, restores the
/// document and gives back the replacements in reverse order.
pub proof fn lemma_apply_ops_involution(rows: Seq<Row>, ms: Seq<OpModel>)
    requires
        ops_valid(rows, ms),
    ensures
        ops_valid(apply_ops(rows, ms).0, apply_ops(rows, ms).1.reverse()),
        apply_ops(apply_ops(rows, ms).0, apply_ops(rows, ms).1.reverse()) == (rows, ms.reverse()),
    decreases ms.len(),
{
    if ms.len() == 0 {
        assert(ms.reverse() =~= Seq::<OpModel>::empty());
        assert(apply_ops(rows, ms).1.reverse() =~= Seq::<OpModel>::empty());
    } else {
        let p = ms.drop_last();
        let m = ms.last();
        lemma_apply_ops_involution(rows, p);
        let (rp, outp) = apply_ops(rows, p);
        let (r1, m1) = apply_op(rp, m);
        lemma_apply_op_involution(rp, m);
        let out = outp.push(m1);
        assert(out.reverse() =~= seq![m1] + outp.reverse());
        lemma_apply_cons(r1, m1, outp.reverse());
        assert(ms.reverse() =~= seq![m] + p.reverse());
    }
}

/// Executing a change twice leaves the document and the change as they
/// were: the second execution undoes the first.
pub proof fn lemma_change_involution(rows: Seq<Row>, c: ChangeModel)
    requires
        change_valid(rows, c),
    ensures
        change_valid(exec_change(rows, c).0, exec_change(rows, c).1),
        exec_change(exec_change(rows, c).0, exec_change(rows, c).1) == (rows, c),
{
    lemma_apply_ops_involution(rows, c.0);
    assert(c.0.reverse().reverse() =~= c.0);
}

/// `undo_ok` reads only the changes below `i`.
pub proof fn lemma_undo_ok_frame(rows: Seq<Row>, cs: Seq<ChangeModel>, cs2: Seq<ChangeModel>, i: int)
    requires
        i <= cs.len(),
        i <= cs2.len(),
        forall|k: int| 0 <= k < i ==> cs[k] == cs2[k],
    ensures
        undo_ok(rows, cs, i) == undo_ok(rows, cs2, i),
    decreases i,
{
    if i > 0 {
        lemma_undo_ok_frame(exec_change(rows, cs[i - 1]).0, cs, cs2, i - 1);
    }
}

/// `redo_ok` reads only the changes from `i` on.
pub proof fn lemma_redo_ok_frame(rows: Seq<Row>, cs: Seq<ChangeModel>, cs2: Seq<ChangeModel>, i: int)
    requires
        0 <= i,
        cs.len() == cs2.len(),
        forall|k: int| i <= k < cs.len() ==> cs[k] == cs2[k],
    ensures
        redo_ok(rows, cs, i) == redo_ok(rows, cs2, i),
    decreases cs.len() - i,
{
    if i < cs.len() {
        lemma_redo_ok_frame(exec_change(rows, cs[i]).0, cs, cs2, i + 1);
    }
}

/// One replacement of rows, as a change records it.
#[derive(Debug)]
pub struct ChangeOp {
    pub range: core::ops::Range<usize>,
    pub rows: Vec<Row>,
}

impl ChangeOp {
    pub open spec fn model(&self) -> OpModel {
        (self.range.start as int, self.range.end as int, self.rows@)
    }
}

/// The models of a list of replacements.
pub open spec fn ops_model(ops: Seq<ChangeOp>) -> Seq<OpModel> {
    ops.map_values(|o: ChangeOp| o.model())
}

/// A recorded edit: replacements of rows, and the cursor before and after.
#[derive(Debug)]
pub struct Change {
    ops: Vec<ChangeOp>,
    before_cursor: Pos,
    after_cursor: Pos,
}

impl Change {
    pub closed spec fn model(&self) -> ChangeModel {
        (ops_model(self.ops@), self.before_cursor, self.after_cursor)
    }

    /// A change made of `ops`, taking the cursor from `before` to `after`.
    pub fn new(ops: Vec<ChangeOp>, before_cursor: Pos, after_cursor: Pos) -> (c: Self)
        ensures
            c.model() == (ops_model(ops@), before_cursor, after_cursor),
    {
        Change { ops, before_cursor, after_cursor }
    }

    /// The empty change, at the origin.
    pub fn default() -> (c: Self)
        ensures
            c.model() == (Seq::<OpModel>::empty(), Pos { x: 0, y: 0 }, Pos { x: 0, y: 0 }),
    {
        let c = Change { ops: Vec::new(), before_cursor: Pos::zero(), after_cursor: Pos::zero() };
        assert(ops_model(c.ops@) =~= Seq::<OpModel>::empty());
        c
    }

    /// Executes the change on the document, then flips it so that executing
    /// it again undoes it; returns the cursor that the change leaves.
    pub fn execute(&mut self, doc: &mut Doc) -> (p: Pos)
        requires
            change_valid(old(doc).rows(), old(self).model()),
        ensures
            (final(doc).rows(), final(self).model()) == exec_change(old(doc).rows(), old(self).model()),
            p == old(self).model().2,
            final(doc).filename() == old(doc).filename(),
            final(doc).is_dirty_spec() == old(doc).is_dirty_spec(),
            final(doc).history() == old(doc).history(),
    {
        let ghost rows0 = doc.rows();
        let ghost ms = ops_model(self.ops@);
        let mut old_ops: Vec<ChangeOp> = Vec::new();
        std::mem::swap(&mut old_ops, &mut self.ops);
        let n = old_ops.len();
        let mut done: Vec<ChangeOp> = Vec::new();
        let mut i: usize = 0;
        while i < n
            invariant
                0 <= i <= n,
                n == ms.len(),
                old_ops@.len() == n - i,
                forall|k: int| 0 <= k < n - i ==> #[trigger] old_ops@[k].model() == ms[i + k],
                ops_valid(rows0, ms),
                (doc.rows(), ops_model(done@).reverse()) == apply_ops(rows0, ms.take(i as int)),
                doc.filename() == old(doc).filename(),
                doc.is_dirty_spec() == old(doc).is_dirty_spec(),
                doc.history() == old(doc).history(),
            decreases n - i,
        {
            proof {
                lemma_ops_valid_prefix(rows0, ms, i as int + 1);
                assert(ms.take(i as int + 1).drop_last() =~= ms.take(i as int));
                assert(ms.take(i as int + 1).last() == ms[i as int]);
            }
            let mut op = old_ops.remove(0);
            assert(op.model() == ms[i as int]);
            let ghost done_before = done@;
            doc.swap_rows(&mut op.range, &mut op.rows);
            done.insert(0, op);
            proof {
                assert(ops_model(done@) =~= seq![op.model()] + ops_model(done_before));
                assert(ops_model(done@).reverse() =~= ops_model(done_before).reverse().push(
                    op.model(),
                ));
                assert forall|k: int| 0 <= k < n - (i + 1) implies #[trigger] old_ops@[k].model()
                    == ms[(i + 1) + k] by {
                }
            }
            i = i + 1;
        }
        proof {
            assert(ms.take(n as int) =~= ms);
            assert(ops_model(done@) =~= ops_model(done@).reverse().reverse());
        }
        self.ops = done;
        let tmp = self.before_cursor;
        self.before_cursor = self.after_cursor;
        self.after_cursor = tmp;
        self.before_cursor
    }
}

/// A valid list of replacements stays valid when cut short.
pub proof fn lemma_ops_valid_prefix(rows: Seq<Row>, ms: Seq<OpModel>, i: int)
    requires
        ops_valid(rows, ms),
        0 <= i <= ms.len(),
    ensures
        ops_valid(rows, ms.take(i)),
    decreases ms.len(),
{
    if i < ms.len() {
        assert(ms.drop_last().take(i) =~= ms.take(i));
        lemma_ops_valid_prefix(rows, ms.drop_last(), i);
    } else {
        assert(ms.take(i) =~= ms);
    }
}

} // verus!

verus! {

/// The list of changes made to a document, and how many of them are in
/// effect: those below `index` are done, those from `index` on are undone.
#[derive(Debug)]
pub struct ChangeStack {
    changes: Vec<Change>,
    index: usize,
}

/// The models of a list of changes.
pub open spec fn changes_model(cs: Seq<Change>) -> Seq<ChangeModel> {
    cs.map_values(|c: Change| c.model())
}

impl ChangeStack {
    /// The changes and the index.
    pub closed spec fn model(&self) -> (Seq<ChangeModel>, int) {
        (changes_model(self.changes@), self.index as int)
    }

    /// An empty history.
    pub fn default() -> (s: Self)
        ensures
            s.model() == (Seq::<ChangeModel>::empty(), 0int),
    {
        let s = ChangeStack { changes: Vec::new(), index: 0 };
        assert(changes_model(s.changes@) =~= Seq::<ChangeModel>::empty());
        s
    }

    /// How many changes are in effect.
    pub fn index(&self) -> (i: usize)
        ensures
            i == self.model().1,
    {
        self.index
    }

    /// Forgets every change.
    pub fn clear(&mut self)
        ensures
            final(self).model() == (Seq::<ChangeModel>::empty(), 0int),
    {
        self.index = 0;
        self.changes.truncate(0);
        assert(changes_model(self.changes@) =~= Seq::<ChangeModel>::empty());
    }

    /// Executes `change` on the document and records it as the latest done
    /// change, forgetting every undone change; returns the cursor it leaves.
    pub fn push(&mut self, doc: &mut Doc, change: Change) -> (p: Pos)
        requires
            history_ok(old(doc).rows(), old(self).model().0, old(self).model().1),
            change_valid(old(doc).rows(), change.model()),
            old(self).model().1 < usize::MAX,
        ensures
            ({
                let (r1, c1) = exec_change(old(doc).rows(), change.model());
                &&& final(doc).rows() == r1
                &&& final(self).model() == (
                    old(self).model().0.take(old(self).model().1).push(c1),
                    old(self).model().1 + 1,
                )
            }),
            p == change.model().2,
            history_ok(final(doc).rows(), final(self).model().0, final(self).model().1),
            final(doc).filename() == old(doc).filename(),
            final(doc).is_dirty_spec() == old(doc).is_dirty_spec(),
            final(doc).history() == old(doc).history(),
    {
        let ghost rows0 = doc.rows();
        let ghost cs0 = changes_model(self.changes@);
        let ghost c0 = change.model();
        let mut change = change;
        self.changes.truncate(self.index);
        let pos = change.execute(doc);
        let ghost c1 = change.model();
        self.changes.push(change);
        self.index = self.index + 1;
        proof {
            let cs1 = changes_model(self.changes@);
            assert(cs1 =~= cs0.take(self.index - 1).push(c1));
            lemma_change_involution(rows0, c0);
            lemma_undo_ok_frame(rows0, cs0, cs1, self.index - 1);
        }
        pos
    }

    /// Redoes the first undone change, if any; returns the cursor it leaves.
    pub fn redo(&mut self, doc: &mut Doc) -> (p: Option<Pos>)
        requires
            history_ok(old(doc).rows(), old(self).model().0, old(self).model().1),
        ensures
            ({
                let (cs, i) = old(self).model();
                if i < cs.len() {
                    let (r1, c1) = exec_change(old(doc).rows(), cs[i]);
                    &&& final(doc).rows() == r1
                    &&& final(self).model() == (cs.update(i, c1), i + 1)
                    &&& p == Some(cs[i].2)
                } else {
                    &&& final(doc).rows() == old(doc).rows()
                    &&& final(self).model() == old(self).model()
                    &&& p == None::<Pos>
                }
            }),
            history_ok(final(doc).rows(), final(self).model().0, final(self).model().1),
            final(doc).filename() == old(doc).filename(),
            final(doc).is_dirty_spec() == old(doc).is_dirty_spec(),
            final(doc).history() == old(doc).history(),
    {
        if self.index < self.changes.len() {
            let ghost rows0 = doc.rows();
            let ghost cs0 = changes_model(self.changes@);
            let i = self.index;
            let mut c = self.changes.remove(i);
            let pos = c.execute(doc);
            let ghost c1 = c.model();
            self.changes.insert(i, c);
            self.index = i + 1;
            proof {
                let cs1 = changes_model(self.changes@);
                assert(cs1 =~= cs0.update(i as int, c1));
                lemma_change_involution(rows0, cs0[i as int]);
                lemma_undo_ok_frame(rows0, cs0, cs1, i as int);
                lemma_redo_ok_frame(exec_change(rows0, cs0[i as int]).0, cs0, cs1, i + 1);
            }
            Some(pos)
        } else {
            None
        }
    }

    /// Undoes the last done change, if any; returns the cursor it leaves.
    pub fn pop(&mut self, doc: &mut Doc) -> (p: Option<Pos>)
        requires
            history_ok(old(doc).rows(), old(self).model().0, old(self).model().1),
        ensures
            ({
                let (cs, i) = old(self).model();
                if i > 0 {
                    let (r1, c1) = exec_change(old(doc).rows(), cs[i - 1]);
                    &&& final(doc).rows() == r1
                    &&& final(self).model() == (cs.update(i - 1, c1), i - 1)
                    &&& p == Some(cs[i - 1].2)
                } else {
                    &&& final(doc).rows() == old(doc).rows()
                    &&& final(self).model() == old(self).model()
                    &&& p == None::<Pos>
                }
            }),
            history_ok(final(doc).rows(), final(self).model().0, final(self).model().1),
            final(doc).filename() == old(doc).filename(),
            final(doc).is_dirty_spec() == old(doc).is_dirty_spec(),
            final(doc).history() == old(doc).history(),
    {
        if self.index > 0 {
            let ghost rows0 = doc.rows();
            let ghost cs0 = changes_model(self.changes@);
            self.index = self.index - 1;
            let i = self.index;
            let mut c = self.changes.remove(i);
            let pos = c.execute(doc);
            let ghost c1 = c.model();
            self.changes.insert(i, c);
            proof {
                let cs1 = changes_model(self.changes@);
                assert(cs1 =~= cs0.update(i as int, c1));
                lemma_change_involution(rows0, cs0[i as int]);
                lemma_undo_ok_frame(exec_change(rows0, cs0[i as int]).0, cs0, cs1, i as int);
                lemma_redo_ok_frame(rows0, cs0, cs1, i + 1);
            }
            Some(pos)
        } else {
            None
        }
    }
}

/// Collects the replacements of one edit before it is committed.
#[derive(Debug)]
pub struct ChangeTracker<'a> {
    pub doc: &'a mut Doc,
    pub before_cursor: Pos,
    pub after_cursor: Option<Pos>,
    pub ops: Vec<ChangeOp>,
}

impl<'a> ChangeTracker<'a> {
    /// Starts an edit of `doc` with the cursor at `cursor`.
    pub fn begin_changes(doc: &'a mut Doc, cursor: Pos) -> (t: Self)
        ensures
            *t.doc == *old(doc),
            *final(doc) == *final(t.doc),
            t.before_cursor == cursor,
            t.after_cursor == None::<Pos>,
            t.ops@ == Seq::<ChangeOp>::empty(),
    {
        ChangeTracker { doc, before_cursor: cursor, after_cursor: None, ops: Vec::new() }
    }

    /// The cursor that the edit leaves: the last one recorded, else the
    /// starting one.
    pub open spec fn end_cursor(&self) -> Pos {
        match self.after_cursor {
            Some(p) => p,
            None => self.before_cursor,
        }
    }

    /// The change that the edit makes.
    pub open spec fn change_model(&self) -> ChangeModel {
        (ops_model(self.ops@), self.before_cursor, self.end_cursor())
    }

    /// Records the edit as the document's latest change and executes it;
    /// returns the cursor that it leaves.
    pub fn commit(self) -> (p: Pos)
        requires
            old(self.doc).wf(),
            change_valid(old(self.doc).rows(), self.change_model()),
            ops_wf(self.change_model().0),
            old(self.doc).history().1 < usize::MAX,
        ensures
            final(self.doc).wf(),
            ({
                let (r1, c1) = exec_change(old(self.doc).rows(), self.change_model());
                let (cs, i) = old(self.doc).history();
                &&& final(self.doc).rows() == r1
                &&& final(self.doc).history() == (cs.take(i).push(c1), i + 1)
            }),
            p == self.end_cursor(),
            final(self.doc).is_dirty_spec(),
            final(self.doc).filename() == old(self.doc).filename(),
    {
        let after = match self.after_cursor {
            Some(p) => p,
            None => self.before_cursor,
        };
        let change = Change::new(self.ops, self.before_cursor, after);
        self.doc.push_change(change)
    }

    /// Records a replacement and the cursor that it leaves.
    pub fn add_op(&mut self, op: ChangeOp, cursor: Pos)
        ensures
            *final(self).doc == *old(self).doc,
            *final(final(self).doc) == *final(old(self).doc),
            final(self).before_cursor == old(self).before_cursor,
            final(self).after_cursor == Some(cursor),
            final(self).ops@ == old(self).ops@.push(op),
    {
        self.ops.push(op);
        self.after_cursor = Some(cursor);
    }
}

} // verus!

verus! {

/// Undo after an edit: executing a change and then undoing the change that
/// the history records for it gives back the document and the change as
/// they were, and sends the cursor back where the edit began; right after
/// the edit nothing is left to redo.
pub proof fn law_undo_after_push(rows: Seq<Row>, cs: Seq<ChangeModel>, i: int, c: ChangeModel)
    requires
        0 <= i <= cs.len(),
        change_valid(rows, c),
    ensures
        ({
            let (r1, c1) = exec_change(rows, c);
            let hist = cs.take(i).push(c1);
            &&& change_valid(r1, hist[i])
            &&& exec_change(r1, hist[i]) == (rows, c)
            &&& hist.update(i, c) == cs.take(i).push(c)
            &&& hist[i].2 == c.1
            &&& hist.len() == i + 1
        }),
{
    lemma_change_involution(rows, c);
    let (r1, c1) = exec_change(rows, c);
    assert(cs.take(i).push(c1)[i] == c1);
    assert(cs.take(i).push(c1).update(i, c) =~= cs.take(i).push(c));
}

/// Redo after undo: undoing the last change and redoing it gives back the
/// document and the history as they were.
pub proof fn law_redo_after_undo(rows: Seq<Row>, cs: Seq<ChangeModel>, i: int)
    requires
        history_ok(rows, cs, i),
        i > 0,
    ensures
        ({
            let (r1, c1) = exec_change(rows, cs[i - 1]);
            let cs1 = cs.update(i - 1, c1);
            &&& exec_change(r1, cs1[i - 1]).0 == rows
            &&& cs1.update(i - 1, exec_change(r1, cs1[i - 1]).1) == cs
        }),
{
    assert(change_valid(rows, cs[i - 1]));
    lemma_change_involution(rows, cs[i - 1]);
    let (r1, c1) = exec_change(rows, cs[i - 1]);
    let cs1 = cs.update(i - 1, c1);
    assert(cs1[i - 1] == c1);
    assert(cs1.update(i - 1, cs[i - 1]) =~= cs);
}

/// Undo after redo: redoing the first undone change and undoing it again
/// gives back the document and the history as they were.
pub proof fn law_undo_after_redo(rows: Seq<Row>, cs: Seq<ChangeModel>, i: int)
    requires
        history_ok(rows, cs, i),
        i < cs.len(),
    ensures
        ({
            let (r1, c1) = exec_change(rows, cs[i]);
            let cs1 = cs.update(i, c1);
            &&& exec_change(r1, cs1[i]).0 == rows
            &&& cs1.update(i, exec_change(r1, cs1[i]).1) == cs
        }),
{
    assert(change_valid(rows, cs[i]));
    lemma_change_involution(rows, cs[i]);
    let (r1, c1) = exec_change(rows, cs[i]);
    let cs1 = cs.update(i, c1);
    assert(cs1[i] == c1);
    assert(cs1.update(i, cs[i]) =~= cs);
}

} // verus!
