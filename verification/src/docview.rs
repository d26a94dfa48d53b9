use vstd::prelude::*;
use crate::doc::{line_slice, rows_view, scan_next_word, scan_prior_word, stream_back_from, stream_from, Doc};
use crate::error::{error_msg, not_valid_message, Error};
use crate::text::push_str;
use crate::status::{Status, STATUS_MESSAGE_MS};
use crate::undo::{
    exec_change, apply_op, apply_ops, lemma_apply_cons, op_valid, ops_model, rows_wf, ChangeModel, ChangeOp,
    OpModel,
};
use crate::mode::{mode_debug, push_mode_debug, Mode, Op, VisualMode};
use crate::key::{decimal, key_text, push_decimal_usize, Key};
use crate::variant::{push_variants_debug, variants_debug, Variant};
use crate::text::{debug_str, debug_text};
use crate::consts::{PROP_DOC_FILENAME, PROP_DOC_IS_MODIFIED, PROP_DOCVIEW_CURSOR_POS, PROP_DOCVIEW_STATUS};
use crate::text::str_eq;
use crate::types::Rect;
use crate::bitmap::{draw_chars, draw_glyph, draw_run, frame_cell, lemma_frame_cell, merge_glyph, run_length, same_but_glyphs, Bitmap, BitmapView};
use crate::glyph::Glyph;
use crate::format::Format;
use crate::color::Color;
use crate::bindings::{bound_keys, str_keys_spec, Bindings, BindingsBuilder, IntoDKBinding, KeysLike};
use crate::command::command;
use crate::dk::DK;
use crate::message::Message;
use crate::target::Target;
use crate::noun::Noun;
use crate::rel::Rel;
use crate::doc::noun_end;
use crate::row::is_next_word_break;
use crate::plugin::PluginRef;
use crate::row::{render_col, Row};
use crate::sel::Sel;
use crate::types::{clamp_int, clamp_usize, pos_lt, Coord, Pos, RelCoord, Size};
use crate::view::ViewKey;

verus! {

/// The cursor position `pos` clamped into the document: its row into
/// `0..=rows.len()` (one past the last row is allowed), its column into the
/// row (onto the last character in normal mode, up to the end otherwise);
/// past the last row the column is zero.
pub open spec fn clamp_pos(rows: Seq<Row>, mode: Mode, pos: Pos) -> Pos {
    let y = clamp_int(pos.y as int, 0, rows.len() as int);
    if y < rows.len() {
        let len = rows[y]@.len() as int;
        let hi = if len > 0 && mode == Mode::Normal {
            len - 1
        } else {
            len
        };
        Pos { x: clamp_int(pos.x as int, 0, hi) as usize, y: y as usize }
    } else {
        Pos { x: 0, y: y as usize }
    }
}

/// The screen column of the cursor at `pos` (a clamped position): the
/// render column of its row up to it, zero past the last row.
pub open spec fn render_x_of(rows: Seq<Row>, pos: Pos) -> int {
    if pos.y < rows.len() {
        render_col(rows[pos.y as int]@, pos.x as int)
    } else {
        0
    }
}

/// A coordinate moved by `d`, kept within `0..=isize::MAX`.
pub open spec fn rel_coord(c: int, d: int) -> int {
    clamp_int(c + d, 0, isize::MAX as int)
}

/// The cursor moved by `(dx, dy)`, before it is clamped into the document.
pub open spec fn moved_pos(cursor: Pos, dx: int, dy: int) -> Pos {
    Pos { x: rel_coord(cursor.x as int, dx) as usize, y: rel_coord(cursor.y as int, dy) as usize }
}

/// A cursor moved by `(dx, dy)` keeps within `isize`.
pub open spec fn move_fits(cursor: Pos, dx: int, dy: int) -> bool {
    &&& cursor.x <= isize::MAX
    &&& cursor.y <= isize::MAX
    &&& cursor.x + dx <= isize::MAX
    &&& cursor.y + dy <= isize::MAX
}

/// The scroll offset along one axis that keeps coordinate `c` within a
/// window of `len` cells starting at `off`.
pub open spec fn scroll_axis(c: int, off: int, len: int) -> int {
    let off1 = if c < off {
        c
    } else {
        off
    };
    if c >= off1 + len {
        c - len + 1
    } else {
        off1
    }
}

/// The history after recording, as the latest change, the replacement of
/// rows `s..e` of `rows` by `n` rows, taking the cursor from `before` to
/// `after`: what undoes it puts the replaced rows back and the cursor at
/// `before`.
pub open spec fn pushed_history(
    h: (Seq<ChangeModel>, int),
    rows: Seq<Row>,
    s: int,
    e: int,
    n: int,
    before: Pos,
    after: Pos,
) -> (Seq<ChangeModel>, int) {
    (h.0.take(h.1).push((seq![(s, s + n, rows.subrange(s, e))], after, before)), h.1 + 1)
}

/// `new` is `old` after an edit that replaced rows `s..e` by rows that read
/// `lines`, recorded as the latest change, with the cursor sent to `pos`
/// and clamped.
pub open spec fn edited(old: DocView, new: DocView, s: int, e: int, lines: Seq<Seq<char>>, pos: Pos) -> bool {
    let rows0 = old.rows();
    &&& new.wf()
    &&& rows_view(new.rows()) == rows_view(rows0).take(s) + lines + rows_view(rows0).skip(e)
    &&& new.doc_spec().history() == pushed_history(
        old.doc_spec().history(),
        rows0,
        s,
        e,
        lines.len() as int,
        old.cursor_spec(),
        pos,
    )
    &&& new.doc_spec().is_dirty_spec()
    &&& new.doc_spec().filename() == old.doc_spec().filename()
    &&& new.cursor_spec() == clamp_pos(new.rows(), old.mode_spec(), pos)
    &&& new.render_x_spec() == render_x_of(new.rows(), new.cursor_spec())
    &&& new.key_spec() == old.key_spec()
    &&& new.sel_spec() == old.sel_spec()
    &&& new.scroll_spec() == old.scroll_spec()
    &&& new.mode_spec() == old.mode_spec()
}

/// `a` and `b` in document order.
pub open spec fn ordered(a: Pos, b: Pos) -> (Pos, Pos) {
    if pos_lt(b, a) {
        (b, a)
    } else {
        (a, b)
    }
}

/// Both ends of a deletion stand inside existing rows.
pub open spec fn span_ok(rows: Seq<Row>, start: Pos, end: Pos) -> bool {
    &&& start.y < rows.len()
    &&& end.y < rows.len()
    &&& start.x <= rows[start.y as int]@.len()
    &&& end.x <= rows[end.y as int]@.len()
}

/// `new` is `old` after deleting from `start` up to `end` (in either order):
/// nothing changes where they are equal; otherwise their rows are joined,
/// the text between them dropped, and the cursor sent to the first.
pub open spec fn deleted(old: DocView, new: DocView, start: Pos, end: Pos) -> bool {
    let (s, e) = ordered(start, end);
    if start == end {
        new == old
    } else {
        edited(
            old,
            new,
            s.y as int,
            e.y + 1,
            seq![old.rows()[s.y as int]@.take(s.x as int) + old.rows()[e.y as int]@.skip(e.x as int)],
            s,
        )
    }
}

/// `new` is `old` after entering `mode`, as `switch_mode` does.
pub open spec fn switched(old: DocView, new: DocView, mode: Mode) -> bool {
    &&& new.wf()
    &&& new.mode_spec() == mode
    &&& new.sel_spec() == if mode == Mode::Visual(VisualMode::Char) {
        Some(Sel { start: old.cursor_spec(), end: old.cursor_spec() })
    } else {
        None
    }
    &&& new.key_spec() == old.key_spec()
    &&& new.doc_spec() == old.doc_spec()
    &&& new.scroll_spec() == old.scroll_spec()
    &&& new.cursor_spec() == clamp_pos(old.rows(), mode, old.cursor_spec())
    &&& new.render_x_spec() == render_x_of(old.rows(), new.cursor_spec())
}

/// The cursor stands inside the document: on an existing row, at most at
/// its end, or at the start of the row past the last.
pub open spec fn cursor_in_doc(v: DocView) -> bool {
    &&& v.cursor_spec().y <= v.rows().len()
    &&& v.cursor_spec().y < v.rows().len() ==> v.cursor_spec().x <= v.rows()[v.cursor_spec().y as int]@.len()
}

/// The mode that an operator leaves behind: insert mode for a change,
/// normal mode otherwise.
pub open spec fn mode_after(op: Op) -> Mode {
    if op == Op::Change {
        Mode::Insert
    } else {
        Mode::Normal
    }
}

/// Where the next word starts after `from`, if anywhere (see
/// `Doc::get_next_word_pos`).
pub open spec fn next_word_spec(rows: Seq<Row>, from: Pos) -> Option<Pos> {
    let s = stream_from(rows, from);
    if s.len() == 0 {
        None
    } else {
        Some(scan_next_word(s, 1))
    }
}

/// Where the word before `from` starts, if anywhere (see
/// `Doc::get_prior_word_pos`).
pub open spec fn prior_word_spec(rows: Seq<Row>, from: Pos) -> Option<Pos> {
    let s = stream_back_from(rows, from);
    if s.len() < 2 {
        None
    } else {
        Some(scan_prior_word(s.skip(1), 1))
    }
}

/// The cursor step of a motion by one character or one line.
pub open spec fn motion_delta(noun: Noun, rel: Rel) -> Option<(int, int)> {
    match (noun, rel) {
        (Noun::Char, Rel::Prior) => Some((-1, 0)),
        (Noun::Char, Rel::Next) => Some((1, 0)),
        (Noun::Line, Rel::Prior) => Some((0, -1)),
        (Noun::Line, Rel::Next) => Some((0, 1)),
        _ => None,
    }
}

/// The error message for a motion that the view does not know.
pub open spec fn motion_message(noun: Noun, rel: Rel) -> Seq<char> {
    "DocView: Don't know how to handle relative motion for ("@ + noun.name_spec() + ", "@
        + rel.name_spec() + ")."@
}

/// The motion is one that the view knows.
pub open spec fn motion_known(noun: Noun, rel: Rel) -> bool {
    motion_delta(noun, rel) is Some || (noun == Noun::Word && (rel == Rel::Next || rel == Rel::Prior))
}

/// `new` is `old` with the cursor moved by `(dx, dy)`, as `move_cursor` does.
pub open spec fn moved(old: DocView, new: DocView, dx: int, dy: int) -> bool {
    let p = moved_pos(old.cursor_spec(), dx, dy);
    &&& new.wf()
    &&& new.key_spec() == old.key_spec()
    &&& new.doc_spec() == old.doc_spec()
    &&& new.scroll_spec() == old.scroll_spec()
    &&& new.mode_spec() == old.mode_spec()
    &&& new.cursor_spec() == clamp_pos(old.rows(), old.mode_spec(), p)
    &&& new.render_x_spec() == render_x_of(old.rows(), new.cursor_spec())
    &&& new.sel_spec() == if old.mode_spec() == Mode::Visual(VisualMode::Char) {
        Some(Sel { start: old.sel_spec().unwrap().start, end: p })
    } else {
        old.sel_spec()
    }
}

/// `new` is `old` with the cursor sent to `pos` where given, as
/// `jump_cursor_pos` does.
pub open spec fn jumped(old: DocView, new: DocView, pos: Option<Pos>) -> bool {
    &&& new.wf()
    &&& new.same_but_cursor(&old)
    &&& match pos {
        Some(p) => {
            &&& new.cursor_spec() == clamp_pos(old.rows(), old.mode_spec(), p)
            &&& new.render_x_spec() == render_x_of(old.rows(), new.cursor_spec())
        },
        None => {
            &&& new.cursor_spec() == old.cursor_spec()
            &&& new.render_x_spec() == old.render_x_spec()
        },
    }
}

/// `new` is `old` after the motion `(noun, rel)`, a known one.
pub open spec fn moved_rel(old: DocView, new: DocView, noun: Noun, rel: Rel) -> bool {
    match motion_delta(noun, rel) {
        Some(d) => moved(old, new, d.0, d.1),
        None => if rel == Rel::Next {
            jumped(old, new, next_word_spec(old.rows(), old.cursor_spec()))
        } else {
            jumped(old, new, prior_word_spec(old.rows(), old.cursor_spec()))
        },
    }
}

/// A motion by a character or a line leaves what one step of `move_cursor`
/// leaves: the same cursor, selection and rendering.
pub proof fn law_rel_motion_is_move(old: DocView, new: DocView, noun: Noun, rel: Rel)
    requires
        motion_delta(noun, rel) is Some,
    ensures
        moved_rel(old, new, noun, rel) == moved(
            old,
            new,
            motion_delta(noun, rel).unwrap().0,
            motion_delta(noun, rel).unwrap().1,
        ),
{
}

/// A motion can be made from `v`: a step by a character or a line keeps
/// the cursor within `isize`; a motion by words needs the cursor no further
/// along its row than the row's end, and to the prior word a row to look
/// in. A motion that the view does not know needs nothing.
pub open spec fn motion_ok(v: DocView, noun: Noun, rel: Rel) -> bool {
    let c = v.cursor_spec();
    match motion_delta(noun, rel) {
        Some(d) => move_fits(c, d.0, d.1),
        None => {
            &&& (noun == Noun::Word && (rel == Rel::Next || rel == Rel::Prior)) ==> (c.y < v.rows().len() ==> c.x
                <= v.rows()[c.y as int]@.len())
            &&& (noun == Noun::Word && rel == Rel::Prior) ==> (v.rows().len() > 0 || c.y > 0)
        },
    }
}

/// Where the motion `(noun, rel)` from the cursor ends, for an operator:
/// `None` where the view does not know the motion, `Some(None)` where it
/// leads nowhere.
pub open spec fn op_target(v: DocView, noun: Noun, rel: Rel) -> Option<Option<Pos>> {
    match motion_delta(noun, rel) {
        Some(d) => Some(Some(clamp_pos(v.rows(), v.mode_spec(), moved_pos(v.cursor_spec(), d.0, d.1)))),
        None => if noun == Noun::Word && rel == Rel::Next {
            Some(next_word_spec(v.rows(), v.cursor_spec()))
        } else if noun == Noun::Word && rel == Rel::Prior {
            Some(prior_word_spec(v.rows(), v.cursor_spec()))
        } else {
            None
        },
    }
}

/// The position just past `p` on its row.
pub open spec fn past(p: Pos) -> Pos {
    Pos { x: (p.x + 1) as usize, y: p.y }
}

/// An operator can act over the motion from `v`: the motion can be made,
/// and where it ends somewhere the operator deletes or changes text that
/// lies inside existing rows, with room in the history for the change.
pub open spec fn op_rel_ok(v: DocView, op: Op, noun: Noun, rel: Rel) -> bool {
    &&& motion_ok(v, noun, rel)
    &&& (op_target(v, noun, rel) matches Some(Some(end)) ==> {
        &&& has_room(v)
        &&& op != Op::Yank
        &&& end.x < usize::MAX
        &&& span_ok(v.rows(), v.cursor_spec(), past(end))
    })
}

/// The noun that `s` names.
pub open spec fn noun_named(s: Seq<char>) -> Option<Noun> {
    if s == "char"@ {
        Some(Noun::Char)
    } else if s == "word"@ {
        Some(Noun::Word)
    } else if s == "line"@ {
        Some(Noun::Line)
    } else {
        None
    }
}

/// The relation that `s` names.
pub open spec fn rel_named(s: Seq<char>) -> Option<Rel> {
    if s == "prior"@ {
        Some(Rel::Prior)
    } else if s == "begin"@ {
        Some(Rel::Begin)
    } else if s == "end"@ {
        Some(Rel::End)
    } else if s == "next"@ {
        Some(Rel::Next)
    } else {
        None
    }
}

/// The noun, relation and count that the arguments `[noun, rel]` or
/// `[noun, rel, count]` name (the count defaults to one); `Err` with the
/// message otherwise.
pub open spec fn noun_rel_count(args: Seq<Variant>) -> Result<(Noun, Rel, i64), Seq<char>> {
    let shape = if args.len() == 3 && args[0] is String && args[1] is String && args[2] is Int {
        Some((args[0]->String_0@, args[1]->String_0@, args[2]->Int_0))
    } else if args.len() == 2 && args[0] is String && args[1] is String {
        Some((args[0]->String_0@, args[1]->String_0@, 1i64))
    } else {
        None
    };
    match shape {
        None => Err("'delete-rel' expects a pair (noun, rel)"@),
        Some((n, r, c)) => match (noun_named(n), rel_named(r)) {
            (Some(noun), Some(rel)) => Ok((noun, rel, c)),
            _ => Err("'move-rel' expects a pair (noun, rel)"@),
        },
    }
}

/// The status message for a key that nothing is bound to.
pub open spec fn no_mapping_message(key: Key, mode: Mode) -> Seq<char> {
    "No mapping found for "@ + key_text(key) + " in "@ + mode_debug(mode) + " mode."@
}

/// The status text of a view: its mode and the cursor's row and column,
/// counted from one.
pub open spec fn status_text(mode: Mode, cursor: Pos) -> Seq<char> {
    "\u{2590} "@ + mode_debug(mode) + " \u{2590} "@ + decimal((cursor.y + 1) as nat) + ":"@ + decimal((cursor.x + 1) as nat) + " "@
}

/// The mode that `s` names.
pub open spec fn mode_named(s: Seq<char>) -> Option<Mode> {
    if s == "insert"@ {
        Some(Mode::Insert)
    } else if s == "normal"@ {
        Some(Mode::Normal)
    } else if s == "visual"@ {
        Some(Mode::Visual(VisualMode::Char))
    } else if s == "visual-line"@ {
        Some(Mode::Visual(VisualMode::Line))
    } else if s == "visual-block"@ {
        Some(Mode::Visual(VisualMode::Block))
    } else {
        None
    }
}

/// The operator that `s` names.
pub open spec fn op_named(s: Seq<char>) -> Option<Op> {
    if s == "change"@ {
        Some(Op::Change)
    } else if s == "delete"@ {
        Some(Op::Delete)
    } else if s == "yank"@ {
        Some(Op::Yank)
    } else {
        None
    }
}

/// One step of a repeated command.
pub enum Step {
    MoveRel(Noun, Rel),
    OpRel(Op, Noun, Rel),
    DeleteRel(Noun, Rel),
}

/// `new` and `r` are what one step leaves from `old`, as the methods
/// `move_cursor_rel`, `do_op_rel` and `delete_rel` state.
pub open spec fn step_done(s: Step, old: DocView, new: DocView, r: Result<Status, Error>) -> bool {
    match s {
        Step::MoveRel(noun, rel) => if motion_known(noun, rel) {
            r matches Ok(Status::Success) && moved_rel(old, new, noun, rel)
        } else {
            &&& r matches Err(e) && e is NotImplemented && e.message_view() == motion_message(noun, rel)
            &&& new == old
        },
        Step::OpRel(op, noun, rel) => match op_target(old, noun, rel) {
            None => {
                &&& r matches Err(e) && e is NotImplemented && e.message_view() == motion_message(noun, rel)
                &&& new == old
            },
            Some(None) => {
                &&& r matches Err(e) && e is General && e.message_view() == "couldn't get an end pos?!"@
                &&& new == old
            },
            Some(Some(end)) => {
                &&& r matches Ok(Status::Success)
                &&& exists|mid: DocView|
                    deleted(old, mid, old.cursor_spec(), past(end)) && switched(mid, new, mode_after(op))
            },
        },
        Step::DeleteRel(noun, rel) => {
            let c = old.cursor_spec();
            let row = old.rows()[c.y as int]@;
            &&& r matches Ok(Status::Success)
            &&& if row.len() == 0 || c.x >= row.len() - 1 {
                new == old
            } else {
                exists|wb: int|
                    is_next_word_break(row, c.x as int, wb) && deleted(
                        old,
                        new,
                        c,
                        Pos { x: noun_end(row, c.x as int, noun, wb) as usize, y: c.y },
                    )
            }
        },
    }
}

/// `tr` is a run of steps: `tr[k + 1]` and `rs[k]` are what step `k`
/// leaves from `tr[k]`, and every step but the last succeeded.
pub open spec fn trace_ok(s: Step, tr: Seq<DocView>, rs: Seq<Result<Status, Error>>) -> bool {
    &&& tr.len() == rs.len() + 1
    &&& forall|k: int| 0 <= k < rs.len() ==> #[trigger] step_done(s, tr[k], tr[k + 1], rs[k])
    &&& forall|k: int| 0 <= k < rs.len() - 1 ==> (#[trigger] rs[k]) is Ok
}

/// `new` and `r` are what `n` steps leave from `old`, stopping at the
/// first error: `r` is that error, or success when all `n` steps (none,
/// for `n <= 0`) succeeded.
pub open spec fn repeated(s: Step, old: DocView, new: DocView, n: int, r: Result<Status, Error>) -> bool {
    exists|tr: Seq<DocView>, rs: Seq<Result<Status, Error>>|
        #[trigger] trace_ok(s, tr, rs) && tr[0] == old && tr.last() == new && {
            ||| (rs.len() == (if n < 0 { 0 } else { n }) && (rs.len() == 0 || rs.last() is Ok) && r matches Ok(
                Status::Success,
            ))
            ||| (0 < rs.len() <= n && rs.last() is Err && r == rs.last())
        }
}

/// Every step of `n` from `old` that is reached starts where it can run.
pub open spec fn steps_ok(s: Step, old: DocView, n: int) -> bool {
    forall|tr: Seq<DocView>, rs: Seq<Result<Status, Error>>|
        #[trigger] trace_ok(s, tr, rs) && tr[0] == old && rs.len() < n && (rs.len() == 0
            || rs.last() is Ok) ==> step_pre(s, tr.last())
}

/// What one step needs of the view it starts from.
pub open spec fn step_pre(s: Step, v: DocView) -> bool {
    &&& v.wf()
    &&& match s {
        Step::MoveRel(noun, rel) => motion_ok(v, noun, rel),
        Step::OpRel(op, noun, rel) => op_rel_ok(v, op, noun, rel),
        Step::DeleteRel(noun, rel) => {
            &&& has_room(v)
            &&& cursor_in_doc(v)
            &&& v.cursor_spec().y < v.rows().len()
            &&& rel == Rel::Next
        },
    }
}

/// The rows are few and short enough for every cursor coordinate to fit in
/// an `isize`.
pub open spec fn doc_small(v: DocView) -> bool {
    &&& v.rows().len() < isize::MAX
    &&& forall|j: int| 0 <= j < v.rows().len() ==> (#[trigger] v.rows()[j])@.len() < isize::MAX
}

/// The message of a failed argument check.
pub open spec fn ensure_message(check: Seq<char>) -> Seq<char> {
    "("@ + check + ") is false"@
}

/// The message for a command that the view does not handle in its mode.
pub open spec fn unhandled_message(name: Seq<char>, args: Seq<Variant>, mode: Mode) -> Seq<char> {
    "DocView::execute_command needs to handle "@ + debug_text(name) + " "@ + variants_debug(args) + " in mode "@ + mode_debug(mode)
        + "."@
}

/// `r` is a general error with message `m`, and the view is unchanged.
pub open spec fn failed(old: DocView, new: DocView, r: Result<Status, Error>, m: Seq<char>) -> bool {
    &&& r matches Err(e) && e is General && e.message_view() == m
    &&& new == old
}

/// The argument is the string `t`.
pub open spec fn is_str(a: Variant, t: Seq<char>) -> bool {
    a matches Variant::String(x) && x@ == t
}

/// The string of a string argument.
pub open spec fn str_of(a: Variant) -> Seq<char> {
    a->String_0@
}

/// What `switch-mode` does with its arguments.
pub open spec fn switch_mode_effect(old: DocView, new: DocView, args: Seq<Variant>, r: Result<Status, Error>) -> bool {
    if args.len() != 1 {
        failed(old, new, r, ensure_message("args.len() == 1"@))
    } else if args[0] is String {
        match mode_named(str_of(args[0])) {
            Some(m) => r matches Ok(Status::Success) && switched(old, new, m),
            None => failed(old, new, r, not_valid_message(str_of(args[0]), " is not a valid editing Mode"@)),
        }
    } else {
        failed(old, new, r, "'switch-mode' expects a string"@)
    }
}

/// What `motion` does in normal mode: a first string argument naming an
/// operator enters the mode that waits for that operator's motion.
pub open spec fn motion_effect(old: DocView, new: DocView, args: Seq<Variant>, r: Result<Status, Error>) -> bool {
    if args.len() > 0 && args[0] is String {
        match op_named(str_of(args[0])) {
            Some(op) => {
                &&& r matches Ok(Status::Success)
                &&& new.mode_spec() == Mode::NormalWithOp(op)
                &&& new.key_spec() == old.key_spec()
                &&& new.cursor_spec() == old.cursor_spec()
                &&& new.sel_spec() == old.sel_spec()
                &&& new.render_x_spec() == old.render_x_spec()
                &&& new.doc_spec() == old.doc_spec()
                &&& new.scroll_spec() == old.scroll_spec()
            },
            None => failed(old, new, r, not_valid_message(str_of(args[0]), " is not a valid Op"@)),
        }
    } else {
        r matches Ok(Status::Success) && new == old
    }
}

/// `new` shows what `old` shows: the same rows, history and flags, the
/// same cursor, selection, scroll offset and mode.
pub open spec fn unchanged(old: DocView, new: DocView) -> bool {
    &&& new.wf() == old.wf()
    &&& new.rows() == old.rows()
    &&& new.doc_spec().history() == old.doc_spec().history()
    &&& new.doc_spec().is_dirty_spec() == old.doc_spec().is_dirty_spec()
    &&& new.doc_spec().filename() == old.doc_spec().filename()
    &&& new.key_spec() == old.key_spec()
    &&& new.cursor_spec() == old.cursor_spec()
    &&& new.sel_spec() == old.sel_spec()
    &&& new.render_x_spec() == old.render_x_spec()
    &&& new.scroll_spec() == old.scroll_spec()
    &&& new.mode_spec() == old.mode_spec()
}

/// What `undo` (or, with `redo`, `redo`) does: executes the last done (the
/// first undone) change and sends the cursor where it leaves it; a message
/// where there is none.
pub open spec fn history_effect(old: DocView, new: DocView, redo: bool, r: Result<Status, Error>) -> bool {
    let (cs, i) = old.doc_spec().history();
    let some = if redo {
        i < cs.len()
    } else {
        i > 0
    };
    let c = if redo {
        cs[i]
    } else {
        cs[i - 1]
    };
    if some {
        let (rows1, c1) = exec_change(old.rows(), c);
        &&& r matches Ok(Status::Success)
        &&& new.wf()
        &&& new.rows() == rows1
        &&& new.doc_spec().history() == (cs.update(if redo { i } else { i - 1 }, c1), if redo { i + 1 } else { i - 1 })
        &&& new.doc_spec().is_dirty_spec()
        &&& new.doc_spec().filename() == old.doc_spec().filename()
        &&& new.cursor_spec() == clamp_pos(rows1, old.mode_spec(), c.2)
        &&& new.render_x_spec() == render_x_of(rows1, new.cursor_spec())
        &&& new.key_spec() == old.key_spec()
        &&& new.sel_spec() == old.sel_spec()
        &&& new.scroll_spec() == old.scroll_spec()
        &&& new.mode_spec() == old.mode_spec()
    } else {
        &&& r matches Ok(Status::Message { message, duration_ms }) && duration_ms == STATUS_MESSAGE_MS
            && message@ == if redo {
            "Nothing left to redo."@
        } else {
            "Nothing left to undo."@
        }
        &&& unchanged(old, new)
    }
}

/// What `move` does: one step up, down, left or right.
pub open spec fn move_effect(old: DocView, new: DocView, args: Seq<Variant>, r: Result<Status, Error>) -> bool {
    if args.len() != 1 {
        failed(old, new, r, ensure_message("args.len() == 1"@))
    } else if !(args[0] is String) {
        failed(old, new, r, "'move' expects a direction"@)
    } else if str_of(args[0]) == "up"@ {
        r matches Ok(Status::Success) && moved(old, new, 0, -1)
    } else if str_of(args[0]) == "down"@ {
        r matches Ok(Status::Success) && moved(old, new, 0, 1)
    } else if str_of(args[0]) == "left"@ {
        r matches Ok(Status::Success) && moved(old, new, -1, 0)
    } else if str_of(args[0]) == "right"@ {
        r matches Ok(Status::Success) && moved(old, new, 1, 0)
    } else {
        failed(old, new, r, "'move' expects one of {up,down,left,right}"@)
    }
}

/// What `newline` does: splits the row at the cursor, or with `above` or
/// `below` opens an empty row there.
pub open spec fn newline_effect(old: DocView, new: DocView, args: Seq<Variant>, r: Result<Status, Error>) -> bool {
    let c = old.cursor_spec();
    if args.len() == 0 {
        let row = old.rows()[c.y as int]@;
        let x = clamp_int(c.x as int, 0, row.len() as int);
        r matches Ok(Status::Success) && edited(
            old,
            new,
            c.y as int,
            c.y + 1,
            seq![row.take(x), row.skip(x)],
            Pos { x: 0, y: (c.y + 1) as usize },
        )
    } else if args.len() == 1 && args[0] is String {
        if str_of(args[0]) == "above"@ {
            r matches Ok(Status::Success) && edited(
                old,
                new,
                c.y as int,
                c.y as int,
                seq![Seq::<char>::empty()],
                Pos { x: 0, y: c.y },
            )
        } else if str_of(args[0]) == "below"@ {
            r matches Ok(Status::Success) && edited(
                old,
                new,
                c.y + 1,
                c.y + 1,
                seq![Seq::<char>::empty()],
                Pos { x: 0, y: (c.y + 1) as usize },
            )
        } else {
            failed(old, new, r, "'newline' expects one of {above,below}"@)
        }
    } else {
        failed(old, new, r, "'newline' encountered unexpected options. [args="@ + variants_debug(args) + "]"@)
    }
}

/// What `move-rel` and `delete-rel` do: read `[noun, rel]` or `[noun, rel,
/// count]`, then run `count` steps.
pub open spec fn rel_effect(
    old: DocView,
    new: DocView,
    args: Seq<Variant>,
    r: Result<Status, Error>,
    check_len: bool,
    step: spec_fn(Noun, Rel) -> Step,
) -> bool {
    if check_len && !(2 <= args.len() <= 3) {
        failed(old, new, r, ensure_message("(2..=3).contains(&args.len())"@))
    } else {
        match noun_rel_count(args) {
            Err(m) => failed(old, new, r, m),
            Ok((noun, rel, count)) => repeated(step(noun, rel), old, new, count as int, r),
        }
    }
}

/// The steps that `move-rel` and `delete-rel` would run from `old` can run.
pub open spec fn rel_safe(old: DocView, args: Seq<Variant>, check_len: bool, step: spec_fn(Noun, Rel) -> Step) -> bool {
    (!check_len || 2 <= args.len() <= 3) ==> match noun_rel_count(args) {
        Err(_) => true,
        Ok((noun, rel, count)) => steps_ok(step(noun, rel), old, count as int),
    }
}

/// What `execute_command(name, args)` does to a view and returns.
pub open spec fn command_effect(old: DocView, new: DocView, name: Seq<char>, args: Seq<Variant>, r: Result<Status, Error>) -> bool {
    let mode = old.mode_spec();
    if name == "switch-mode"@ {
        switch_mode_effect(old, new, args, r)
    } else if name == "quit"@ {
        r matches Ok(Status::Quit) && new == old
    } else if mode == Mode::Normal && name == "motion"@ {
        motion_effect(old, new, args, r)
    } else if mode == Mode::Normal && name == "undo"@ {
        history_effect(old, new, false, r)
    } else if mode == Mode::Normal && name == "redo"@ {
        history_effect(old, new, true, r)
    } else if name == "join-lines"@ {
        if args.len() != 0 {
            failed(old, new, r, ensure_message("args.is_empty()"@))
        } else {
            let y = old.cursor_spec().y;
            r matches Ok(Status::Success) && deleted(
                old,
                new,
                Pos { x: old.rows()[y as int]@.len() as usize, y },
                Pos { x: 0, y: (y + 1) as usize },
            )
        }
    } else if name == "delete-backwards"@ {
        failed(old, new, r, ensure_message("args.is_empty()"@))
    } else if name == "delete-forwards"@ {
        if args.len() != 0 {
            failed(old, new, r, ensure_message("args.is_empty()"@))
        } else {
            step_done(Step::DeleteRel(Noun::Char, Rel::Next), old, new, r)
        }
    } else if mode == Mode::Visual(VisualMode::Char) && name == "delete"@ {
        let sel = old.sel_spec().unwrap();
        &&& r matches Ok(Status::Success)
        &&& exists|mid: DocView|
            deleted(old, mid, sel.start, past(sel.end)) && switched(mid, new, Mode::Normal)
    } else if mode == Mode::Normal && name == "open"@ {
        if args.len() != 1 {
            failed(old, new, r, ensure_message("args.len() == 1"@))
        } else {
            failed(old, new, r, "'open' expects a filename"@)
        }
    } else if (mode == Mode::Normal || mode == Mode::Visual(VisualMode::Char)) && name == "move"@ {
        move_effect(old, new, args, r)
    } else if name == "newline"@ {
        newline_effect(old, new, args, r)
    } else if mode is NormalWithOp && name == "move-rel"@ {
        rel_effect(old, new, args, r, true, |noun: Noun, rel: Rel| Step::OpRel(mode->NormalWithOp_0, noun, rel))
    } else if name == "move-rel"@ {
        rel_effect(old, new, args, r, true, |noun: Noun, rel: Rel| Step::MoveRel(noun, rel))
    } else if mode == Mode::Normal && name == "delete-rel"@ {
        rel_effect(old, new, args, r, false, |noun: Noun, rel: Rel| Step::DeleteRel(noun, rel))
    } else {
        &&& r matches Err(e) && e is NotImplemented && e.message_view() == unhandled_message(name, args, mode)
        &&& new == old
    }
}

/// `execute_command(name, args)` runs on `old` without reaching a state
/// where the editor stops: opening a file (which reads the file system and
/// is done by `open`), deleting backwards, deleting outside the rows, an
/// operator's motion beyond the rows or a yank, and a cursor beyond `isize`.
pub open spec fn command_safe(old: DocView, name: Seq<char>, args: Seq<Variant>) -> bool {
    let mode = old.mode_spec();
    let c = old.cursor_spec();
    if name == "switch-mode"@ || name == "quit"@ {
        true
    } else if mode == Mode::Normal && name == "motion"@ {
        true
    } else if mode == Mode::Normal && (name == "undo"@ || name == "redo"@) {
        true
    } else if name == "join-lines"@ {
        args.len() == 0 ==> has_room(old) && c.y + 1 < old.rows().len()
    } else if name == "delete-backwards"@ {
        args.len() != 0
    } else if name == "delete-forwards"@ {
        args.len() == 0 ==> step_pre(Step::DeleteRel(Noun::Char, Rel::Next), old)
    } else if mode == Mode::Visual(VisualMode::Char) && name == "delete"@ {
        let sel = old.sel_spec().unwrap();
        &&& has_room(old)
        &&& sel.end.x < usize::MAX
        &&& span_ok(old.rows(), sel.start, past(sel.end))
    } else if mode == Mode::Normal && name == "open"@ {
        !(args.len() == 1 && args[0] is String)
    } else if (mode == Mode::Normal || mode == Mode::Visual(VisualMode::Char)) && name == "move"@ {
        args.len() == 1 && args[0] is String ==> c.x < isize::MAX && c.y < isize::MAX
    } else if name == "newline"@ {
        &&& has_room(old)
        &&& args.len() == 0 ==> c.y < old.rows().len()
        &&& args.len() == 1 && is_str(args[0], "above"@) ==> c.y <= old.rows().len()
        &&& args.len() == 1 && is_str(args[0], "below"@) ==> c.y < old.rows().len()
    } else if mode is NormalWithOp && name == "move-rel"@ {
        rel_safe(old, args, true, |noun: Noun, rel: Rel| Step::OpRel(mode->NormalWithOp_0, noun, rel))
    } else if name == "move-rel"@ {
        rel_safe(old, args, true, |noun: Noun, rel: Rel| Step::MoveRel(noun, rel))
    } else if mode == Mode::Normal && name == "delete-rel"@ {
        rel_safe(old, args, false, |noun: Noun, rel: Rel| Step::DeleteRel(noun, rel))
    } else {
        true
    }
}

/// The test that `command_is_safe` makes, a sufficient condition for
/// `command_safe`: the same as it for every command but `move-rel` and
/// `delete-rel`, where a run of motions needs a document whose cursor
/// coordinates fit in an `isize`, a run of operator motions counts as
/// unable to run beyond its first, and forward deletions need room in the
/// history for every step.
pub open spec fn command_checked(v: DocView, name: Seq<char>, args: Seq<Variant>) -> bool {
    let mode = v.mode_spec();
    let normal = mode == Mode::Normal;
    let visual_char = mode == Mode::Visual(VisualMode::Char);
    let room = has_room(v);
    let c = v.cursor_spec();
    let n = v.rows().len();
    if name == "switch-mode"@ || name == "quit"@ {
        true
    } else if normal && name == "motion"@ {
        true
    } else if normal && (name == "undo"@ || name == "redo"@) {
        true
    } else if name == "join-lines"@ {
        args.len() != 0 || (room && c.y < n && c.y + 1 < n)
    } else if name == "delete-backwards"@ {
        args.len() != 0
    } else if name == "delete-forwards"@ {
        args.len() != 0 || (room && cursor_in_doc(v) && c.y < n)
    } else if visual_char && name == "delete"@ {
        match v.sel_spec() {
            Some(sel) => room && sel.end.x < usize::MAX && span_ok(v.rows(), sel.start, past(sel.end)),
            None => false,
        }
    } else if normal && name == "open"@ {
        !(args.len() == 1 && args[0] is String)
    } else if (normal || visual_char) && name == "move"@ {
        !(args.len() == 1 && args[0] is String) || (c.x < isize::MAX && c.y < isize::MAX)
    } else if name == "newline"@ {
        let above = args.len() == 1 && is_str(args[0], "above"@);
        let below = args.len() == 1 && is_str(args[0], "below"@);
        room && (args.len() != 0 || c.y < n) && (!above || c.y <= n) && (!below || c.y < n)
    } else if name == "move-rel"@ || (normal && name == "delete-rel"@) {
        let is_move = name == "move-rel"@;
        if is_move && !(2 <= args.len() <= 3) {
            true
        } else {
            match noun_rel_count(args) {
                Err(_) => true,
                Ok((noun, rel, count)) => if count <= 0 {
                    true
                } else if is_move {
                    match mode {
                        Mode::NormalWithOp(op) => count == 1 && op_rel_ok(v, op, noun, rel),
                        _ => motion_ok(v, noun, rel) && doc_small(v),
                    }
                } else {
                    rel == Rel::Next && cursor_in_doc(v) && c.y < n && count <= usize::MAX - v.doc_spec().history().1
                },
            }
        }
    } else {
        true
    }
}

/// A clamped cursor stands in the document.
pub proof fn lemma_clamp_pos(rows: Seq<Row>, mode: Mode, p: Pos)
    ensures
        clamp_pos(rows, mode, p).y <= rows.len(),
        clamp_pos(rows, mode, p).y < rows.len() ==> clamp_pos(rows, mode, p).x <= rows[clamp_pos(rows, mode, p).y as int]@.len(),
        clamp_pos(rows, mode, p).y == rows.len() ==> clamp_pos(rows, mode, p).x == 0,
{
}

/// Each state that a run of motions reaches keeps the document and the
/// mode, and lets the next motion run.
proof fn lemma_move_trace(v: DocView, noun: Noun, rel: Rel, tr: Seq<DocView>, rs: Seq<Result<Status, Error>>, k: int)
    requires
        v.wf(),
        motion_ok(v, noun, rel),
        doc_small(v),
        trace_ok(Step::MoveRel(noun, rel), tr, rs),
        tr[0] == v,
        0 <= k <= rs.len(),
        forall|j: int| 0 <= j < k ==> (#[trigger] rs[j]) is Ok,
    ensures
        tr[k].wf(),
        tr[k].doc_spec() == v.doc_spec(),
        tr[k].mode_spec() == v.mode_spec(),
        motion_ok(tr[k], noun, rel),
    decreases k,
{
    if k > 0 {
        lemma_move_trace(v, noun, rel, tr, rs, k - 1);
        let j = k - 1;
        assert(step_done(Step::MoveRel(noun, rel), tr[j], tr[j + 1], rs[j]));
        let a = tr[j];
        let b = tr[k];
        assert(rs[k - 1] is Ok);
        match motion_delta(noun, rel) {
            Some(d) => {
                lemma_clamp_pos(a.rows(), a.mode_spec(), moved_pos(a.cursor_spec(), d.0, d.1));
            },
            None => {
                let p = if rel == Rel::Next {
                    next_word_spec(a.rows(), a.cursor_spec())
                } else {
                    prior_word_spec(a.rows(), a.cursor_spec())
                };
                if let Some(q) = p {
                    lemma_clamp_pos(a.rows(), a.mode_spec(), q);
                }
            },
        }
        let c = b.cursor_spec();
        if c.y < b.rows().len() {
            assert(b.rows()[c.y as int]@.len() < isize::MAX);
        }
    }
}

/// A run of motions can always take its next step from a view whose
/// document is small and whose cursor stands in it.
pub proof fn lemma_move_steps_ok(v: DocView, noun: Noun, rel: Rel, n: int)
    requires
        v.wf(),
        motion_ok(v, noun, rel),
        doc_small(v),
    ensures
        steps_ok(Step::MoveRel(noun, rel), v, n),
{
    let s = Step::MoveRel(noun, rel);
    assert forall|tr: Seq<DocView>, rs: Seq<Result<Status, Error>>|
        #[trigger] trace_ok(s, tr, rs) && tr[0] == v && rs.len() < n && (rs.len() == 0 || rs.last() is Ok)
        implies step_pre(s, tr.last()) by {
        assert forall|j: int| 0 <= j < rs.len() implies (#[trigger] rs[j]) is Ok by {
            if j < rs.len() - 1 {
            } else {
                assert(rs[j] == rs.last());
            }
        }
        lemma_move_trace(v, noun, rel, tr, rs, rs.len() as int);
        assert(tr.last() == tr[rs.len() as int]);
    }
}

/// Each state that a run of forward deletions reaches keeps the mode, the
/// number of rows and the cursor's row, and has recorded at most one change
/// per step.
proof fn lemma_delete_trace(v: DocView, noun: Noun, tr: Seq<DocView>, rs: Seq<Result<Status, Error>>, k: int)
    requires
        step_pre(Step::DeleteRel(noun, Rel::Next), v),
        trace_ok(Step::DeleteRel(noun, Rel::Next), tr, rs),
        tr[0] == v,
        0 <= k <= rs.len(),
    ensures
        tr[k].wf(),
        tr[k].mode_spec() == v.mode_spec(),
        tr[k].rows().len() == v.rows().len(),
        tr[k].cursor_spec().y == v.cursor_spec().y,
        cursor_in_doc(tr[k]),
        tr[k].doc_spec().history().1 <= v.doc_spec().history().1 + k,
    decreases k,
{
    if k > 0 {
        lemma_delete_trace(v, noun, tr, rs, k - 1);
        let j = k - 1;
        assert(step_done(Step::DeleteRel(noun, Rel::Next), tr[j], tr[j + 1], rs[j]));
        let a = tr[j];
        let b = tr[k];
        let c = a.cursor_spec();
        let row = a.rows()[c.y as int]@;
        if !(row.len() == 0 || c.x >= row.len() - 1) {
            let wb = choose|wb: int|
                is_next_word_break(row, c.x as int, wb) && deleted(
                    a,
                    b,
                    c,
                    Pos { x: noun_end(row, c.x as int, noun, wb) as usize, y: c.y },
                );
            let e = Pos { x: noun_end(row, c.x as int, noun, wb) as usize, y: c.y };
            let (s0, e0) = ordered(c, e);
            assert(s0.y == c.y && e0.y == c.y);
            if c != e {
                let rv = rows_view(a.rows());
                assert(rows_view(b.rows()).len() == b.rows().len());
                assert(rv.len() == a.rows().len());
                lemma_clamp_pos(b.rows(), a.mode_spec(), s0);
            }
        }
    }
}

/// A run of forward deletions can always take its next step from a view
/// whose cursor stands on a row, when the history has room for them all.
pub proof fn lemma_delete_steps_ok(v: DocView, noun: Noun, n: int)
    requires
        v.wf(),
        cursor_in_doc(v),
        v.cursor_spec().y < v.rows().len(),
        v.doc_spec().history().1 + n <= usize::MAX,
    ensures
        steps_ok(Step::DeleteRel(noun, Rel::Next), v, n),
{
    let s = Step::DeleteRel(noun, Rel::Next);
    assert forall|tr: Seq<DocView>, rs: Seq<Result<Status, Error>>|
        #[trigger] trace_ok(s, tr, rs) && tr[0] == v && rs.len() < n && (rs.len() == 0 || rs.last() is Ok)
        implies step_pre(s, tr.last()) by {
        lemma_delete_trace(v, noun, tr, rs, rs.len() as int);
        assert(tr.last() == tr[rs.len() as int]);
    }
}

/// The key sequence of one character.
pub open spec fn ch(c: char) -> Seq<Key> {
    seq![Key::Utf8(c)]
}

/// The key sequence that names an operator (`c`, `d` or `y`).
pub open spec fn op_keys(op: Op) -> Seq<Key> {
    match op {
        Op::Change => ch('c'),
        Op::Delete => ch('d'),
        Op::Yank => ch('y'),
    }
}

/// The keys bound in normal and in visual mode, first of all.
pub open spec fn motion_keys() -> Seq<Seq<Key>> {
    seq![ch('c'), ch('d'), ch('y'), ch('h'), ch('j'), ch('k'), ch('l'), ch('e'), ch('w'), ch('J'), ch('b')]
}

/// The key sequences that a document view binds in `mode`, in the order
/// they are bound.
pub open spec fn docview_keys(mode: Mode) -> Seq<Seq<Key>> {
    match mode {
        Mode::Normal => motion_keys() + seq![
            ch('u'),
            seq![Key::Ctrl('r')],
            seq![Key::Ctrl('u')],
            seq![Key::Ctrl('d')],
            ch('s'),
            ch('v'),
            ch('i'),
            ch(':'),
            ch('o'),
            ch('O'),
            ch('x'),
            ch('X'),
        ],
        Mode::Visual(_) => motion_keys() + seq![ch('i'), ch('a'), seq![Key::Esc], ch('x')],
        Mode::NormalWithOp(op) => seq![
            ch('i'),
            ch('a'),
            seq![Key::Esc],
            op_keys(op),
            ch('h'),
            ch('j'),
            ch('k'),
            ch('l'),
            ch('e'),
            ch('w'),
            ch('b'),
            ch('J'),
        ],
        Mode::NormalWithOpObjMode(_, _) => seq![ch('w')],
        Mode::Insert => seq![seq![Key::Esc], seq![Key::Utf8('j'), Key::Utf8('k')], seq![Key::Backspace], seq![Key::Enter]],
    }
}

/// The text arguments `args`, one string each.
pub open spec fn text_args(a: Seq<Variant>, args: Seq<Seq<char>>) -> bool {
    &&& a.len() == args.len()
    &&& forall|i: int| 0 <= i < a.len() ==> ((#[trigger] a[i]) matches Variant::String(t) && t@ == args[i])
}

/// `dk` sends the command `name`, with the text arguments `args`, to
/// `target`.
pub open spec fn sends(dk: DK, target: Target, name: Seq<char>, args: Seq<Seq<char>>) -> bool {
    dk matches DK::Dispatch(t, Message::Command { name: n, args: a }) && t == target && n@ == name && text_args(a@, args)
}

/// `dk` sends the command `name`, with the text arguments `args` and then
/// the count `count`, to `target`.
pub open spec fn sends_count(dk: DK, target: Target, name: Seq<char>, args: Seq<Seq<char>>, count: i64) -> bool {
    dk matches DK::Dispatch(t, Message::Command { name: n, args: a }) && t == target && n@ == name && a@.len() == args.len()
        + 1 && text_args(a@.drop_last(), args) && a@.last() == Variant::Int(count)
}

/// The bindings of the motions of normal and visual mode, bound first.
pub open spec fn motions_bound(es: Seq<(Vec<Key>, DK)>, vk: ViewKey) -> bool {
    let v = Target::View(vk);
    &&& es.len() >= 11
    &&& sends(es[0].1, v, "motion"@, seq!["change"@])
    &&& sends(es[1].1, v, "motion"@, seq!["delete"@])
    &&& sends(es[2].1, v, "motion"@, seq!["yank"@])
    &&& sends(es[3].1, v, "move"@, seq!["left"@])
    &&& sends(es[4].1, v, "move"@, seq!["down"@])
    &&& sends(es[5].1, v, "move"@, seq!["up"@])
    &&& sends(es[6].1, v, "move"@, seq!["right"@])
    &&& sends(es[7].1, v, "move-rel"@, seq!["word"@, "end"@])
    &&& sends(es[8].1, v, "move-rel"@, seq!["word"@, "next"@])
    &&& sends(es[9].1, v, "join-lines"@, seq![])
    &&& sends(es[10].1, v, "move-rel"@, seq!["word"@, "prior"@])
}

/// The text-object bindings of visual mode and of a pending operator, from
/// index `at` on.
pub open spec fn objects_bound(es: Seq<(Vec<Key>, DK)>, vk: ViewKey, at: int) -> bool {
    &&& es.len() >= at + 2
    &&& sends(es[at].1, Target::View(vk), "inner"@, seq![])
    &&& sends(es[at + 1].1, Target::View(vk), "a"@, seq![])
}

/// The bindings of a pending operator after its text objects.
pub open spec fn op_motions_bound(es: Seq<(Vec<Key>, DK)>, vk: ViewKey) -> bool {
    let v = Target::View(vk);
    &&& es.len() >= 12
    &&& sends(es[2].1, v, "switch-mode"@, seq!["normal"@])
    &&& sends(es[3].1, v, "line"@, seq![])
    &&& sends(es[4].1, v, "move-rel"@, seq!["char"@, "prior"@])
    &&& sends(es[5].1, v, "move-rel"@, seq!["line"@, "next"@])
    &&& sends(es[6].1, v, "move-rel"@, seq!["line"@, "prior"@])
    &&& sends(es[7].1, v, "move-rel"@, seq!["char"@, "next"@])
    &&& sends(es[8].1, v, "move-rel"@, seq!["word"@, "end"@])
    &&& sends(es[9].1, v, "move-rel"@, seq!["word"@, "end"@])
    &&& sends(es[10].1, v, "move-rel"@, seq!["word"@, "prior"@])
    &&& sends(es[11].1, v, "join-lines"@, seq![])
}

/// The bindings of normal mode after its motions.
pub open spec fn normal_bound(es: Seq<(Vec<Key>, DK)>, vk: ViewKey) -> bool {
    let v = Target::View(vk);
    &&& es.len() >= 23
    &&& sends(es[11].1, v, "undo"@, seq![])
    &&& sends(es[12].1, v, "redo"@, seq![])
    &&& sends_count(es[13].1, v, "move-rel"@, seq!["line"@, "prior"@], 44)
    &&& sends_count(es[14].1, v, "move-rel"@, seq!["line"@, "next"@], 44)
    &&& sends(es[15].1, v, "save"@, seq![])
    &&& sends(es[16].1, v, "switch-mode"@, seq!["visual"@])
    &&& sends(es[17].1, v, "switch-mode"@, seq!["insert"@])
    &&& es[18].1 matches DK::Dispatch(Target::ViewMap, Message::Command { name, args }) && name@ == "focus"@
        && args@.len() == 1 && (args@[0] matches Variant::Target(Target::Named(n)) && n@ == "command-line"@)
    &&& es[19].1 matches DK::Sequence(steps) && steps@.len() == 2 && sends(steps@[0], v, "newline"@, seq!["below"@])
        && sends(steps@[1], v, "switch-mode"@, seq!["insert"@])
    &&& es[20].1 matches DK::Sequence(steps) && steps@.len() == 3 && sends(steps@[0], v, "newline"@, seq!["above"@])
        && sends(steps@[1], v, "move-rel"@, seq!["line"@, "begin"@]) && sends(steps@[2], v, "switch-mode"@, seq!["insert"@])
    &&& sends(es[21].1, v, "delete-rel"@, seq!["char"@, "next"@])
    &&& sends(es[22].1, v, "delete-rel"@, seq!["char"@, "prior"@])
}

/// What each key sequence that a document view binds in `mode` produces
/// (the sequences are `docview_keys(mode)`, in the same order).
pub open spec fn docview_bound(es: Seq<(Vec<Key>, DK)>, vk: ViewKey, mode: Mode) -> bool {
    let v = Target::View(vk);
    match mode {
        Mode::Normal => motions_bound(es, vk) && normal_bound(es, vk),
        Mode::Visual(_) => {
            &&& motions_bound(es, vk)
            &&& objects_bound(es, vk, 11)
            &&& es.len() >= 15
            &&& sends(es[13].1, v, "switch-mode"@, seq!["normal"@])
            &&& sends(es[14].1, v, "delete"@, seq![])
        },
        Mode::NormalWithOp(_) => objects_bound(es, vk, 0) && op_motions_bound(es, vk),
        Mode::NormalWithOpObjMode(_, _) => es.len() >= 1 && sends(es[0].1, v, "word"@, seq![]),
        Mode::Insert => {
            &&& es.len() >= 4
            &&& sends(es[0].1, v, "switch-mode"@, seq!["normal"@])
            &&& es[1].1 == DK::Key(Key::Esc)
            &&& sends(es[2].1, v, "delete-backwards"@, seq![])
            &&& sends(es[3].1, v, "newline"@, seq![])
        },
    }
}

/// The one-character string `s` names the key sequence of that character.
proof fn lemma_str_keys1(s: Seq<char>, c: char)
    requires
        s.len() == 1,
        s[0] == c,
    ensures
        str_keys_spec(s) == ch(c),
{
    assert(str_keys_spec(s) =~= ch(c));
}

/// One-key sequences are equal only for equal keys.
proof fn lemma_one_key_eq()
    ensures
        forall|a: Key, b: Key| #[trigger] seq![a] == #[trigger] seq![b] ==> a == b,
{
    assert forall|a: Key, b: Key| #[trigger] seq![a] == #[trigger] seq![b] implies a == b by {
        assert(seq![a][0] == a);
        assert(seq![b][0] == b);
    }
}

/// `es2` begins with the bindings of `es`.
pub open spec fn kept(es: Seq<(Vec<Key>, DK)>, es2: Seq<(Vec<Key>, DK)>) -> bool {
    &&& es2.len() >= es.len()
    &&& forall|i: int| 0 <= i < es.len() ==> #[trigger] es2[i] == es[i]
}

/// Binds `keys`, which must not be bound yet, in `b`.
fn bind<K: KeysLike, D: IntoDKBinding>(b: &mut BindingsBuilder, keys: K, dk: D)
    requires
        old(b).bindings.wf(),
        !bound_keys(old(b).bindings.entries()).contains(keys.keys_spec()),
    ensures
        final(b).bindings.wf(),
        final(b).default_vk == old(b).default_vk,
        final(b).bindings.entries().drop_last() == old(b).bindings.entries(),
        final(b).bindings.entries().last().1 == dk.dk_spec(old(b).default_vk),
        final(b).bindings.entries()[old(b).bindings.entries().len() as int].1 == dk.dk_spec(old(b).default_vk),
        kept(old(b).bindings.entries(), final(b).bindings.entries()),
        bound_keys(final(b).bindings.entries()) == bound_keys(old(b).bindings.entries()).push(keys.keys_spec()),
{
    b.insert(keys, dk);
    assert(bound_keys(b.bindings.entries()) =~= bound_keys(old(b).bindings.entries()).push(keys.keys_spec()));
}

/// Binds the motions of normal and visual mode.
fn bind_motions(builder: &mut BindingsBuilder)
    requires
        old(builder).bindings.wf(),
        bound_keys(old(builder).bindings.entries()) == Seq::<Seq<Key>>::empty(),
    ensures
        final(builder).bindings.wf(),
        final(builder).default_vk == old(builder).default_vk,
        bound_keys(final(builder).bindings.entries()) == motion_keys(),
        motions_bound(final(builder).bindings.entries(), old(builder).default_vk),
{
    proof {
        lemma_one_key_eq();
        reveal_strlit("c");
        reveal_strlit("d");
        reveal_strlit("y");
        reveal_strlit("h");
        reveal_strlit("j");
        reveal_strlit("k");
        reveal_strlit("l");
        reveal_strlit("e");
        reveal_strlit("w");
        reveal_strlit("J");
        reveal_strlit("b");
        lemma_str_keys1("c"@, 'c');
        lemma_str_keys1("d"@, 'd');
        lemma_str_keys1("y"@, 'y');
        lemma_str_keys1("h"@, 'h');
        lemma_str_keys1("j"@, 'j');
        lemma_str_keys1("k"@, 'k');
        lemma_str_keys1("l"@, 'l');
        lemma_str_keys1("e"@, 'e');
        lemma_str_keys1("w"@, 'w');
        lemma_str_keys1("J"@, 'J');
        lemma_str_keys1("b"@, 'b');
    }
    bind(builder, "c", command("motion").arg(Variant::from_str("change")));
    bind(builder, "d", command("motion").arg(Variant::from_str("delete")));
    bind(builder, "y", command("motion").arg(Variant::from_str("yank")));
    bind(builder, "h", command("move").arg(Variant::from_str("left")));
    bind(builder, "j", command("move").arg(Variant::from_str("down")));
    bind(builder, "k", command("move").arg(Variant::from_str("up")));
    bind(builder, "l", command("move").arg(Variant::from_str("right")));
    bind(builder, "e", command("move-rel").arg(Variant::from_str("word")).arg(Variant::from_str("end")));
    bind(builder, "w", command("move-rel").arg(Variant::from_str("word")).arg(Variant::from_str("next")));
    bind(builder, "J", command("join-lines"));
    bind(builder, "b", command("move-rel").arg(Variant::from_str("word")).arg(Variant::from_str("prior")));
    assert(bound_keys(builder.bindings.entries()) =~= motion_keys());
}

/// Binds the text-object keys of visual mode and of a pending operator.
fn bind_objects(builder: &mut BindingsBuilder)
    requires
        old(builder).bindings.wf(),
        bound_keys(old(builder).bindings.entries()) == Seq::<Seq<Key>>::empty() || bound_keys(
            old(builder).bindings.entries(),
        ) == motion_keys(),
    ensures
        final(builder).bindings.wf(),
        final(builder).default_vk == old(builder).default_vk,
        bound_keys(final(builder).bindings.entries()) == bound_keys(old(builder).bindings.entries()) + seq![ch('i'), ch('a')],
        kept(old(builder).bindings.entries(), final(builder).bindings.entries()),
        objects_bound(final(builder).bindings.entries(), old(builder).default_vk, old(builder).bindings.entries().len() as int),
{
    proof {
        lemma_one_key_eq();
        reveal_strlit("i");
        reveal_strlit("a");
        lemma_str_keys1("i"@, 'i');
        lemma_str_keys1("a"@, 'a');
    }
    let ghost b0 = bound_keys(builder.bindings.entries());
    bind(builder, "i", command("inner"));
    bind(builder, "a", command("a"));
    assert(bound_keys(builder.bindings.entries()) =~= b0 + seq![ch('i'), ch('a')]);
}

/// Binds the motions that complete a pending operator.
fn bind_op_motions(builder: &mut BindingsBuilder, op: Op)
    requires
        old(builder).bindings.wf(),
        bound_keys(old(builder).bindings.entries()) == seq![ch('i'), ch('a')],
    ensures
        final(builder).bindings.wf(),
        final(builder).default_vk == old(builder).default_vk,
        bound_keys(final(builder).bindings.entries()) == docview_keys(Mode::NormalWithOp(op)),
        kept(old(builder).bindings.entries(), final(builder).bindings.entries()),
        op_motions_bound(final(builder).bindings.entries(), old(builder).default_vk),
{
    proof {
        lemma_one_key_eq();
        reveal_strlit("h");
        reveal_strlit("j");
        reveal_strlit("k");
        reveal_strlit("l");
        reveal_strlit("e");
        reveal_strlit("w");
        reveal_strlit("J");
        reveal_strlit("b");
        reveal_strlit("c");
        reveal_strlit("d");
        reveal_strlit("y");
        lemma_str_keys1("h"@, 'h');
        lemma_str_keys1("j"@, 'j');
        lemma_str_keys1("k"@, 'k');
        lemma_str_keys1("l"@, 'l');
        lemma_str_keys1("e"@, 'e');
        lemma_str_keys1("w"@, 'w');
        lemma_str_keys1("J"@, 'J');
        lemma_str_keys1("b"@, 'b');
        lemma_str_keys1("c"@, 'c');
        lemma_str_keys1("d"@, 'd');
        lemma_str_keys1("y"@, 'y');
    }
    bind(builder, Key::Esc, command("switch-mode").arg(Variant::from_str("normal")));
    let ok = op.as_str();
    proof {
        match op {
            Op::Change => {},
            Op::Delete => {},
            Op::Yank => {},
        }
        assert(str_keys_spec(ok@) == op_keys(op));
    }
    bind(builder, ok, command("line"));
    bind(builder, "h", command("move-rel").arg(Variant::from_str("char")).arg(Variant::from_str("prior")));
    bind(builder, "j", command("move-rel").arg(Variant::from_str("line")).arg(Variant::from_str("next")));
    bind(builder, "k", command("move-rel").arg(Variant::from_str("line")).arg(Variant::from_str("prior")));
    bind(builder, "l", command("move-rel").arg(Variant::from_str("char")).arg(Variant::from_str("next")));
    bind(builder, "e", command("move-rel").arg(Variant::from_str("word")).arg(Variant::from_str("end")));
    bind(builder, "w", command("move-rel").arg(Variant::from_str("word")).arg(Variant::from_str("end")));
    bind(builder, "b", command("move-rel").arg(Variant::from_str("word")).arg(Variant::from_str("prior")));
    bind(builder, "J", command("join-lines"));
    assert(bound_keys(builder.bindings.entries()) =~= docview_keys(Mode::NormalWithOp(op)));
}

/// Binds the keys of normal mode after its motions.
fn bind_normal(builder: &mut BindingsBuilder)
    requires
        old(builder).bindings.wf(),
        bound_keys(old(builder).bindings.entries()) == motion_keys(),
    ensures
        final(builder).bindings.wf(),
        final(builder).default_vk == old(builder).default_vk,
        bound_keys(final(builder).bindings.entries()) == docview_keys(Mode::Normal),
        kept(old(builder).bindings.entries(), final(builder).bindings.entries()),
        normal_bound(final(builder).bindings.entries(), old(builder).default_vk),
{
    proof {
        lemma_one_key_eq();
        reveal_strlit("u");
        reveal_strlit("s");
        reveal_strlit("v");
        reveal_strlit("i");
        reveal_strlit(":");
        reveal_strlit("o");
        reveal_strlit("O");
        reveal_strlit("x");
        reveal_strlit("X");
        lemma_str_keys1("u"@, 'u');
        lemma_str_keys1("s"@, 's');
        lemma_str_keys1("v"@, 'v');
        lemma_str_keys1("i"@, 'i');
        lemma_str_keys1(":"@, ':');
        lemma_str_keys1("o"@, 'o');
        lemma_str_keys1("O"@, 'O');
        lemma_str_keys1("x"@, 'x');
        lemma_str_keys1("X"@, 'X');
    }
    let vk = builder.default_vk;
    bind(builder, "u", command("undo"));
    bind(builder, Key::Ctrl('r'), command("redo"));
    bind(
        builder,
        Key::Ctrl('u'),
        command("move-rel").arg(Variant::from_str("line")).arg(Variant::from_str("prior")).arg(Variant::Int(44)),
    );
    bind(
        builder,
        Key::Ctrl('d'),
        command("move-rel").arg(Variant::from_str("line")).arg(Variant::from_str("next")).arg(Variant::Int(44)),
    );
    bind(builder, "s", command("save"));
    bind(builder, "v", command("switch-mode").arg(Variant::from_str("visual")));
    bind(builder, "i", command("switch-mode").arg(Variant::from_str("insert")));
    bind(
        builder,
        ":",
        command("focus").arg(Variant::Target(Target::Named(String::from_str("command-line")))).at_view_map(),
    );
    let mut seq_o: Vec<DK> = Vec::new();
    seq_o.push(command("newline").arg(Variant::from_str("below")).at_view(vk));
    seq_o.push(command("switch-mode").arg(Variant::from_str("insert")).at_view(vk));
    bind(builder, "o", DK::Sequence(seq_o));
    let mut seq_big_o: Vec<DK> = Vec::new();
    seq_big_o.push(command("newline").arg(Variant::from_str("above")).at_view(vk));
    seq_big_o.push(command("move-rel").arg(Variant::from_str("line")).arg(Variant::from_str("begin")).at_view(vk));
    seq_big_o.push(command("switch-mode").arg(Variant::from_str("insert")).at_view(vk));
    bind(builder, "O", DK::Sequence(seq_big_o));
    bind(builder, "x", command("delete-rel").arg(Variant::from_str("char")).arg(Variant::from_str("next")));
    bind(builder, "X", command("delete-rel").arg(Variant::from_str("char")).arg(Variant::from_str("prior")));
    assert(bound_keys(builder.bindings.entries()) =~= docview_keys(Mode::Normal));
}

/// The smaller of `a` and `b`.
pub open spec fn min_int(a: int, b: int) -> int {
    if a < b {
        a
    } else {
        b
    }
}

/// The default colors.
pub open spec fn plain() -> Format {
    Format { fg: Color::NoColor, bg: Color::NoColor }
}

/// The colors of selected text.
pub open spec fn highlighted() -> Format {
    Format { fg: Color::Black, bg: Color::White }
}

/// `p` moved `n` columns right.
pub open spec fn right(p: Pos, n: int) -> Pos {
    Pos { x: (p.x + n) as usize, y: p.y }
}

/// The runs of text that show row `rs.y` from column `rs.x` at screen
/// position `sp` in a line `width` cells wide: the part of a selection that
/// starts and ends on the row shows highlighted between plain parts; the
/// row where a longer selection starts shows nothing; any other row shows
/// plain.
pub open spec fn line_spans(rows: Seq<Row>, sel: Option<Sel>, sp: Pos, rs: Pos, width: int) -> Seq<(Pos, Seq<char>, Format)> {
    let whole = seq![(sp, line_slice(rows, rs, width), plain())];
    match sel {
        None => whole,
        Some(sel) => {
            let (start, end) = if pos_lt(sel.end, sel.start) {
                (sel.end, past(sel.start))
            } else {
                (sel.start, sel.end)
            };
            if start.y != rs.y {
                whole
            } else if end.y != rs.y {
                Seq::empty()
            } else {
                sel_line_spans(rows, start, end, sp, rs, width)
            }
        },
    }
}

/// The runs of text of a row on which a selection from `start` to `end`
/// (exclusive) starts and ends: plain text before it, the highlighted
/// selection, plain text after it, as far as the line reaches.
pub open spec fn sel_line_spans(rows: Seq<Row>, start: Pos, end: Pos, sp: Pos, rs: Pos, width: int) -> Seq<(Pos, Seq<char>, Format)> {
    let p1 = start.x > rs.x;
    let c1 = if p1 {
        line_slice(rows, rs, min_int(start.x - rs.x, width - sp.x))
    } else {
        Seq::empty()
    };
    let sp1 = right(sp, c1.len() as int);
    let rs1 = right(rs, c1.len() as int);
    let p2 = sp1.x < width && end.x > rs1.x;
    let c2 = if p2 {
        line_slice(rows, rs1, min_int(end.x - rs1.x, width - sp1.x))
    } else {
        Seq::empty()
    };
    let sp2 = right(sp1, c2.len() as int);
    let rs2 = right(rs1, c2.len() as int);
    let p3 = sp2.x < width;
    let c3 = if p3 {
        line_slice(rows, rs2, width - sp2.x)
    } else {
        Seq::empty()
    };
    (if p1 {
        seq![(sp, c1, plain())]
    } else {
        Seq::empty()
    }) + (if p2 {
        seq![(sp1, c2, highlighted())]
    } else {
        Seq::empty()
    }) + (if p3 {
        seq![(sp2, c3, plain())]
    } else {
        Seq::empty()
    })
}

/// The starting column of a shown row lies within the row, with room to
/// count `width` more columns.
pub open spec fn line_start_ok(rows: Seq<Row>, rs: Pos, width: int) -> bool {
    &&& rs.y < rows.len() ==> rs.x <= rows[rs.y as int]@.len()
    &&& rs.x + width <= usize::MAX
}

/// A run of text of one format, at a position on screen.
pub struct Span<'a> {
    pub screen_pos: Pos,
    pub chars: &'a [char],
    pub format: Format,
}

/// What a span shows: where, which characters, in which colors.
pub open spec fn span_view(s: Span) -> (Pos, Seq<char>, Format) {
    (s.screen_pos, s.chars@, s.format)
}

/// Where line `y` of the view starts in the document.
pub open spec fn line_start(scroll: Pos, y: int) -> Pos {
    Pos { x: scroll.x, y: (scroll.y + y) as usize }
}

/// `gs`, a `w`-wide grid, with the spans drawn in turn into `frame`.
pub open spec fn spans_drawn(gs: Seq<Glyph>, frame: Rect, w: int, spans: Seq<(Pos, Seq<char>, Format)>) -> Seq<Glyph>
    decreases spans.len(),
{
    if spans.len() == 0 {
        gs
    } else {
        let prev = spans_drawn(gs, frame, w, spans.drop_last());
        let (p, chs, f) = spans.last();
        draw_run(prev, frame_cell(frame, w, p), chs, run_length(p.x as int, frame.width as int, chs.len() as int), f)
    }
}

/// `gs` with the first `n` lines of the view drawn into `frame`: line `y`
/// shows row `scroll.y + y` from column `scroll.x`.
pub open spec fn lines_drawn(
    gs: Seq<Glyph>,
    frame: Rect,
    w: int,
    rows: Seq<Row>,
    sel: Option<Sel>,
    scroll: Pos,
    n: int,
) -> Seq<Glyph>
    decreases n,
{
    if n <= 0 {
        gs
    } else {
        let prev = lines_drawn(gs, frame, w, rows, sel, scroll, n - 1);
        spans_drawn(
            prev,
            frame,
            w,
            line_spans(
                rows,
                sel,
                Pos { x: 0, y: (n - 1) as usize },
                line_start(scroll, n - 1),
                frame.width as int,
            ),
        )
    }
}

/// `gs` with a `~` (in the colors already there) at the start of the lines
/// `from..to` of `frame`.
pub open spec fn tildes_drawn(gs: Seq<Glyph>, frame: Rect, w: int, from: int, to: int) -> Seq<Glyph>
    decreases to - from,
{
    if to <= from {
        gs
    } else {
        let prev = tildes_drawn(gs, frame, w, from, to - 1);
        let i = frame_cell(frame, w, Pos { x: 0, y: (to - 1) as usize });
        prev.update(i, merge_glyph(prev[i], Glyph { ch: '~', format: plain() }))
    }
}

/// How many lines of the view show rows: those left below the scroll
/// offset (every row, where the offset is past the last), at most `height`.
pub open spec fn shown_lines(rows: Seq<Row>, scroll: Pos, height: int) -> int {
    let left = if scroll.y >= rows.len() {
        rows.len() as int
    } else {
        rows.len() - scroll.y
    };
    min_int(height, left)
}

/// Every run of a line stands on the line's screen row.
proof fn lemma_line_spans_row(rows: Seq<Row>, sel: Option<Sel>, sp: Pos, rs: Pos, width: int)
    ensures
        forall|k: int| 0 <= k < line_spans(rows, sel, sp, rs, width).len() ==> (#[trigger] line_spans(rows, sel, sp, rs, width)[k]).0.y == sp.y,
{
    let l = line_spans(rows, sel, sp, rs, width);
    if let Some(sl) = sel {
        let (start, end) = if pos_lt(sl.end, sl.start) {
            (sl.end, past(sl.start))
        } else {
            (sl.start, sl.end)
        };
        if start.y == rs.y && end.y == rs.y {
            let p1 = start.x > rs.x;
            let c1 = if p1 {
                line_slice(rows, rs, min_int(start.x - rs.x, width - sp.x))
            } else {
                Seq::empty()
            };
            let sp1 = right(sp, c1.len() as int);
            let rs1 = right(rs, c1.len() as int);
            let p2 = sp1.x < width && end.x > rs1.x;
            let c2 = if p2 {
                line_slice(rows, rs1, min_int(end.x - rs1.x, width - sp1.x))
            } else {
                Seq::empty()
            };
            let sp2 = right(sp1, c2.len() as int);
            let a: Seq<(Pos, Seq<char>, Format)> = if p1 {
                seq![(sp, c1, plain())]
            } else {
                Seq::empty()
            };
            let b: Seq<(Pos, Seq<char>, Format)> = if p2 {
                seq![(sp1, c2, highlighted())]
            } else {
                Seq::empty()
            };
            let c: Seq<(Pos, Seq<char>, Format)> = if sp2.x < width {
                seq![(sp2, line_slice(rows, right(rs1, c2.len() as int), width - sp2.x), plain())]
            } else {
                Seq::empty()
            };
            assert(l == a + b + c);
            assert forall|k: int| 0 <= k < l.len() implies (#[trigger] l[k]).0.y == sp.y by {
                if k < a.len() {
                    assert(l[k] == a[k]);
                } else if k < a.len() + b.len() {
                    assert(l[k] == b[k - a.len()]);
                } else {
                    assert(l[k] == c[k - a.len() - b.len()]);
                }
            }
        }
    }
}

/// `send_key(key)` can run on `v`: inserting a character needs room in the
/// history, the cursor in the document and one more column.
pub open spec fn key_safe(v: DocView, key: Key) -> bool {
    v.mode_spec() == Mode::Insert && key is Utf8 ==> {
        &&& has_room(v)
        &&& cursor_in_doc(v)
        &&& v.cursor_spec().x < usize::MAX
    }
}

/// What `send_key(key)` does to a view and returns.
pub open spec fn key_effect(old: DocView, new: DocView, key: Key, r: Result<Status, Error>) -> bool {
    match old.mode_spec() {
        Mode::Normal | Mode::Visual(_) => {
            &&& r matches Ok(Status::Message { message, duration_ms }) && message@
                == no_mapping_message(key, old.mode_spec()) && duration_ms == 5000
            &&& new == old
        },
        Mode::Insert => match key {
            Key::Utf8(ch) => {
                &&& r matches Ok(Status::Success)
                &&& ({
                    let c = old.cursor_spec();
                    let pos = Pos { x: (c.x + 1) as usize, y: c.y };
                    if c.y < old.rows().len() {
                        edited(
                            old,
                            new,
                            c.y as int,
                            c.y + 1,
                            seq![old.rows()[c.y as int]@.insert(c.x as int, ch)],
                            pos,
                        )
                    } else {
                        edited(old, new, c.y as int, c.y as int, seq![seq![ch]], pos)
                    }
                })
            },
            _ => {
                &&& r matches Ok(Status::Message { message, duration_ms }) && message@
                    == no_mapping_message(key, old.mode_spec()) && duration_ms == 2500
                &&& new == old
            },
        },
        _ => {
            &&& r matches Err(e) && e is General && e.message_view()
                == "don't yet know how to handle send_keys in mode '"@ + mode_debug(old.mode_spec()) + "'"@
            &&& new == old
        },
    }
}

/// The view can be drawn into `frame`: the scroll offset plus the frame's
/// height fits, each shown row reaches the scroll column, the selection
/// can be extended by one column, and a frame with lines to mark has a
/// column for the marks.
pub open spec fn display_ok(v: DocView, frame: Rect) -> bool {
    &&& frame.height + v.scroll_spec().y <= usize::MAX
    &&& forall|y: int|
        0 <= y < shown_lines(v.rows(), v.scroll_spec(), frame.height as int) ==> line_start_ok(
            v.rows(),
            #[trigger] line_start(v.scroll_spec(), y),
            frame.width as int,
        )
    &&& v.sel_spec() matches Some(sel) ==> sel.start.x < usize::MAX
    &&& frame.width > 0 || shown_lines(v.rows(), v.scroll_spec(), frame.height as int) == frame.height
}

/// `gs`, a `w`-wide grid, with the view drawn into `frame`: each shown line
/// its row's runs of text, then a `~` at the start of each line below.
pub open spec fn doc_drawn(v: DocView, gs: Seq<Glyph>, frame: Rect, w: int) -> Seq<Glyph> {
    let n = shown_lines(v.rows(), v.scroll_spec(), frame.height as int);
    tildes_drawn(lines_drawn(gs, frame, w, v.rows(), v.sel_spec(), v.scroll_spec(), n), frame, w, n, frame.height as int)
}

/// One more change can be recorded.
pub open spec fn has_room(v: DocView) -> bool {
    v.doc_spec().history().1 < usize::MAX
}

/// A view of a document: the document, the cursor and the selection, the
/// scroll offset and the editing mode.
pub struct DocView {
    plugin: PluginRef,
    key: ViewKey,
    cursor: Pos,
    sel: Option<Sel>,
    render_cursor_x: Coord,
    doc: Doc,
    scroll_offset: Pos,
    mode: Mode,
}

impl DocView {
    pub closed spec fn key_spec(&self) -> ViewKey {
        self.key
    }

    pub closed spec fn cursor_spec(&self) -> Pos {
        self.cursor
    }

    pub closed spec fn sel_spec(&self) -> Option<Sel> {
        self.sel
    }

    pub closed spec fn render_x_spec(&self) -> Coord {
        self.render_cursor_x
    }

    pub closed spec fn doc_spec(&self) -> Doc {
        self.doc
    }

    pub closed spec fn scroll_spec(&self) -> Pos {
        self.scroll_offset
    }

    /// The view scrolled to `scroll`, all else kept.
    pub closed spec fn with_scroll(self, scroll: Pos) -> DocView {
        DocView { scroll_offset: scroll, ..self }
    }

    /// Where `scroll` leaves the view scrolled for a window of `size`: just
    /// far enough that the cursor shows.
    pub open spec fn scroll_target(self, size: Size) -> Pos {
        Pos {
            x: scroll_axis(self.render_x_spec() as int, self.scroll_spec().x as int, size.width as int) as usize,
            y: scroll_axis(self.cursor_spec().y as int, self.scroll_spec().y as int, size.height as int) as usize,
        }
    }

    pub closed spec fn mode_spec(&self) -> Mode {
        self.mode
    }

    /// The rows of the document.
    pub open spec fn rows(&self) -> Seq<Row> {
        self.doc_spec().rows()
    }

    /// The document keeps its invariant, and a visual selection by
    /// characters has a selection.
    pub open spec fn wf(&self) -> bool {
        &&& self.doc_spec().wf()
        &&& self.mode_spec() == Mode::Visual(VisualMode::Char) ==> self.sel_spec() is Some
    }

    /// Everything but the cursor and the column it renders at is as in `old`.
    pub open spec fn same_but_cursor(&self, old: &DocView) -> bool {
        &&& self.key_spec() == old.key_spec()
        &&& self.sel_spec() == old.sel_spec()
        &&& self.doc_spec() == old.doc_spec()
        &&& self.scroll_spec() == old.scroll_spec()
        &&& self.mode_spec() == old.mode_spec()
    }

    /// A view of an empty document, in normal mode, with the cursor at the
    /// origin.
    pub fn new(view_key: ViewKey, plugin: PluginRef) -> (v: Self)
        ensures
            v.wf(),
            v.key_spec() == view_key,
            v.cursor_spec() == (Pos { x: 0, y: 0 }),
            v.sel_spec() is None,
            v.render_x_spec() == 0,
            v.rows().len() == 1,
            v.rows()[0]@.len() == 0,
            v.doc_spec().history() == (Seq::<ChangeModel>::empty(), 0int),
            !v.doc_spec().is_dirty_spec(),
            v.doc_spec().filename() is None,
            v.scroll_spec() == (Pos { x: 0, y: 0 }),
            v.mode_spec() == Mode::Normal,
    {
        DocView {
            plugin,
            key: view_key,
            cursor: Pos::zero(),
            sel: None,
            render_cursor_x: 0,
            doc: Doc::empty(),
            scroll_offset: Pos::zero(),
            mode: Mode::Normal,
        }
    }

    pub fn get_view_key(&self) -> (k: ViewKey)
        ensures
            k == self.key_spec(),
    {
        self.key
    }

    /// The last row the cursor may stand on: one past the document's last.
    pub fn last_valid_row(&self) -> (n: Coord)
        ensures
            n == self.rows().len(),
    {
        self.doc.line_count()
    }

    /// `pos` clamped into the document as the cursor would be.
    pub fn clamped_pos(&self, pos: Pos) -> (p: Pos)
        ensures
            p == clamp_pos(self.rows(), self.mode_spec(), pos),
    {
        let y = clamp_usize(pos.y, 0, self.last_valid_row());
        match self.doc.get_row(y) {
            Some(row) => {
                let len = row.len();
                let hi = if len > 0 && self.mode == Mode::Normal {
                    len - 1
                } else {
                    len
                };
                Pos { x: clamp_usize(pos.x, 0, hi), y }
            },
            None => Pos { x: 0, y },
        }
    }

    /// Clamps the cursor into the document and recomputes its screen column.
    fn clamp_cursor(&mut self)
        requires
            old(self).doc_spec().wf(),
        ensures
            final(self).same_but_cursor(old(self)),
            final(self).cursor_spec() == clamp_pos(old(self).rows(), old(self).mode_spec(), old(self).cursor_spec()),
            final(self).render_x_spec() == render_x_of(old(self).rows(), final(self).cursor_spec()),
    {
        let c = self.clamped_pos(self.cursor);
        self.cursor = c;
        match self.doc.get_row(c.y) {
            Some(row) => {
                proof {
                    assert(self.doc.rows()[c.y as int].wf());
                }
                self.render_cursor_x = row.cursor_to_render_col(c.x);
            },
            None => {
                self.render_cursor_x = 0;
            },
        }
    }

    /// Moves the cursor to the given column and row, each where given, then
    /// clamps it into the document.
    pub fn jump_cursor(&mut self, x: Option<Coord>, y: Option<Coord>)
        requires
            old(self).wf(),
        ensures
            final(self).wf(),
            final(self).same_but_cursor(old(self)),
            final(self).cursor_spec() == clamp_pos(
                old(self).rows(),
                old(self).mode_spec(),
                Pos {
                    x: match x {
                        Some(v) => v,
                        None => old(self).cursor_spec().x,
                    },
                    y: match y {
                        Some(v) => v,
                        None => old(self).cursor_spec().y,
                    },
                },
            ),
            final(self).render_x_spec() == render_x_of(old(self).rows(), final(self).cursor_spec()),
    {
        if let Some(y) = y {
            self.cursor.y = y;
        }
        if let Some(x) = x {
            self.cursor.x = x;
        }
        self.clamp_cursor();
    }

    /// Moves the cursor to `pos`, where given, and clamps it.
    pub fn jump_cursor_pos(&mut self, pos: Option<Pos>)
        requires
            old(self).wf(),
        ensures
            final(self).wf(),
            final(self).same_but_cursor(old(self)),
            match pos {
                Some(p) => {
                    &&& final(self).cursor_spec() == clamp_pos(old(self).rows(), old(self).mode_spec(), p)
                    &&& final(self).render_x_spec() == render_x_of(old(self).rows(), final(self).cursor_spec())
                },
                None => {
                    &&& final(self).cursor_spec() == old(self).cursor_spec()
                    &&& final(self).render_x_spec() == old(self).render_x_spec()
                },
            },
    {
        if let Some(pos) = pos {
            self.jump_cursor(Some(pos.x), Some(pos.y));
        }
    }

    /// The cursor moved by `(x, y)` and clamped into the document.
    pub fn get_rel_cursor_pos(&self, x: RelCoord, y: RelCoord) -> (p: Pos)
        requires
            move_fits(self.cursor_spec(), x as int, y as int),
        ensures
            p == clamp_pos(self.rows(), self.mode_spec(), moved_pos(self.cursor_spec(), x as int, y as int)),
    {
        self.clamped_pos(Pos { y: rel_move(self.cursor.y, y), x: rel_move(self.cursor.x, x) })
    }

    /// Moves the cursor by `(x, y)` and clamps it; in visual mode by
    /// characters the selection's end follows the moved cursor (before the
    /// clamp).
    pub fn move_cursor(&mut self, x: RelCoord, y: RelCoord) -> (r: Result<Status, Error>)
        requires
            old(self).wf(),
            move_fits(old(self).cursor_spec(), x as int, y as int),
        ensures
            r matches Ok(Status::Success),
            moved(*old(self), *final(self), x as int, y as int),
    {
        self.cursor.y = rel_move(self.cursor.y, y);
        self.cursor.x = rel_move(self.cursor.x, x);
        if self.mode == Mode::Visual(VisualMode::Char) {
            if let Some(sel) = self.sel {
                self.sel = Some(Sel { start: sel.start, end: self.cursor });
            }
        }
        self.clamp_cursor();
        Ok(Status::Success)
    }

    /// Enters `mode`: visual mode by characters starts a selection at the
    /// cursor, every other mode drops the selection; the cursor is clamped
    /// for the new mode.
    pub fn switch_mode(&mut self, mode: Mode)
        requires
            old(self).wf(),
        ensures
            final(self).wf(),
            final(self).mode_spec() == mode,
            final(self).sel_spec() == if mode == Mode::Visual(VisualMode::Char) {
                Some(Sel { start: old(self).cursor_spec(), end: old(self).cursor_spec() })
            } else {
                None
            },
            final(self).key_spec() == old(self).key_spec(),
            final(self).doc_spec() == old(self).doc_spec(),
            final(self).scroll_spec() == old(self).scroll_spec(),
            final(self).cursor_spec() == clamp_pos(old(self).rows(), mode, old(self).cursor_spec()),
            final(self).render_x_spec() == render_x_of(old(self).rows(), final(self).cursor_spec()),
    {
        self.mode = mode;
        if mode == Mode::Visual(VisualMode::Char) {
            self.sel = Some(Sel::from_pos(self.cursor));
        } else {
            self.sel = None;
        }
        self.clamp_cursor();
    }

    /// Records `op` as the latest change, executes it, and sends the cursor
    /// to `pos`.
    fn apply_op_pos(&mut self, op: ChangeOp, pos: Pos) -> (r: Result<Status, Error>)
        requires
            old(self).wf(),
            has_room(*old(self)),
            op_valid(old(self).rows(), op.model()),
            rows_wf(op.rows@),
        ensures
            r matches Ok(Status::Success),
            edited(*old(self), *final(self), op.range.start as int, op.range.end as int, rows_view(op.rows@), pos),
            final(self).rows() == old(self).rows().take(op.range.start as int) + op.rows@ + old(self).rows().skip(op.range.end as int),
    {
        let ghost rows0 = self.doc.rows();
        let ghost m = op.model();
        let ghost cur0 = self.cursor;
        let mut tracker = self.doc.new_change_tracker(self.cursor);
        tracker.add_op(op, pos);
        proof {
            assert(ops_model(tracker.ops@) =~= seq![m]);
            lemma_apply_cons(rows0, m, Seq::<OpModel>::empty());
            assert(seq![m] + Seq::<OpModel>::empty() =~= seq![m]);
            assert(seq![apply_op(rows0, m).1] + Seq::<OpModel>::empty() =~= seq![apply_op(rows0, m).1]);
            assert(seq![apply_op(rows0, m).1].reverse() =~= seq![apply_op(rows0, m).1]);
            assert forall|j: int| 0 <= j < seq![m].len() implies rows_wf((#[trigger] seq![m][j]).2) by {
                assert(seq![m][j] == m);
            }
        }
        let cursor = tracker.commit();
        self.jump_cursor_pos(Some(cursor));
        proof {
            let rows1 = self.doc.rows();
            assert(rows_view(rows1) =~= rows_view(rows0).take(m.0) + rows_view(m.2) + rows_view(rows0).skip(m.1));
        }
        Ok(Status::Success)
    }

    /// Splits the cursor's row in two at the cursor; the cursor goes to the
    /// start of the new row.
    pub fn split_newline(&mut self) -> (r: Result<Status, Error>)
        requires
            old(self).wf(),
            has_room(*old(self)),
            old(self).cursor_spec().y < old(self).rows().len(),
        ensures
            r matches Ok(Status::Success),
            ({
                let c = old(self).cursor_spec();
                let row = old(self).rows()[c.y as int]@;
                let x = clamp_int(c.x as int, 0, row.len() as int);
                edited(
                    *old(self),
                    *final(self),
                    c.y as int,
                    c.y + 1,
                    seq![row.take(x), row.skip(x)],
                    Pos { x: 0, y: (c.y + 1) as usize },
                )
            }),
    {
        let (op, pos) = self.doc.split_newline(self.cursor);
        proof {
            assert(rows_view(op.rows@) =~= seq![op.rows@[0]@, op.rows@[1]@]);
        }
        self.apply_op_pos(op, pos)
    }

    /// Inserts an empty row above the cursor's row and moves the cursor to it.
    pub fn insert_newline_above(&mut self) -> (r: Result<Status, Error>)
        requires
            old(self).wf(),
            has_room(*old(self)),
            old(self).cursor_spec().y <= old(self).rows().len(),
        ensures
            r matches Ok(Status::Success),
            ({
                let y = old(self).cursor_spec().y;
                edited(*old(self), *final(self), y as int, y as int, seq![Seq::<char>::empty()], Pos { x: 0, y })
            }),
    {
        let op = self.doc.insert_newline(self.cursor.y);
        let pos = Pos { x: 0, y: self.cursor.y };
        proof {
            assert(rows_view(op.rows@) =~= seq![Seq::<char>::empty()]);
        }
        self.apply_op_pos(op, pos)
    }

    /// Inserts an empty row below the cursor's row and moves the cursor to it.
    pub fn insert_newline_below(&mut self) -> (r: Result<Status, Error>)
        requires
            old(self).wf(),
            has_room(*old(self)),
            old(self).cursor_spec().y < old(self).rows().len(),
        ensures
            r matches Ok(Status::Success),
            ({
                let y = old(self).cursor_spec().y + 1;
                edited(
                    *old(self),
                    *final(self),
                    y,
                    y,
                    seq![Seq::<char>::empty()],
                    Pos { x: 0, y: y as usize },
                )
            }),
    {
        let _n = self.doc.line_count();
        let op = self.doc.insert_newline(self.cursor.y + 1);
        let pos = Pos { x: 0, y: self.cursor.y + 1 };
        proof {
            assert(rows_view(op.rows@) =~= seq![Seq::<char>::empty()]);
        }
        self.apply_op_pos(op, pos)
    }

    /// Inserts `ch` at the cursor (past the last row, as a new row) and
    /// moves the cursor past it.
    pub fn insert_char(&mut self, ch: char) -> (r: Result<Status, Error>)
        requires
            old(self).wf(),
            has_room(*old(self)),
            cursor_in_doc(*old(self)),
            old(self).cursor_spec().x < usize::MAX,
        ensures
            r matches Ok(Status::Success),
            ({
                let c = old(self).cursor_spec();
                let pos = Pos { x: (c.x + 1) as usize, y: c.y };
                if c.y < old(self).rows().len() {
                    edited(
                        *old(self),
                        *final(self),
                        c.y as int,
                        c.y + 1,
                        seq![old(self).rows()[c.y as int]@.insert(c.x as int, ch)],
                        pos,
                    )
                } else {
                    edited(*old(self), *final(self), c.y as int, c.y as int, seq![seq![ch]], pos)
                }
            }),
    {
        let op = self.doc.insert_char(self.cursor, ch);
        let pos = Pos { x: self.cursor.x + 1, y: self.cursor.y };
        proof {
            assert(rows_view(op.rows@) =~= seq![op.rows@[0]@]);
        }
        self.apply_op_pos(op, pos)
    }

    /// Deletes from `start` up to `end` (in either order), joining their
    /// rows; the cursor goes to the first. Nothing happens where they are
    /// equal.
    fn delete_range(&mut self, start: Pos, end: Pos) -> (r: Result<Status, Error>)
        requires
            old(self).wf(),
            has_room(*old(self)),
            span_ok(old(self).rows(), start, end),
        ensures
            r matches Ok(Status::Success),
            deleted(*old(self), *final(self), start, end),
    {
        match self.doc.delete_range(start, end) {
            Some((op, pos)) => {
                proof {
                    assert(rows_view(op.rows@) =~= seq![op.rows@[0]@]);
                }
                self.apply_op_pos(op, pos)
            },
            None => Ok(Status::Success),
        }
    }

    /// Deletes the selection, its last position included, and returns to
    /// normal mode; an error where there is no selection.
    pub fn delete_sel(&mut self) -> (r: Result<Status, Error>)
        requires
            old(self).wf(),
            has_room(*old(self)),
            old(self).sel_spec() matches Some(sel) ==> sel.end.x < usize::MAX && span_ok(
                old(self).rows(),
                sel.start,
                Pos { x: (sel.end.x + 1) as usize, y: sel.end.y },
            ),
        ensures
            match old(self).sel_spec() {
                Some(sel) => {
                    &&& r matches Ok(Status::Success)
                    &&& exists|mid: DocView|
                        deleted(*old(self), mid, sel.start, Pos { x: (sel.end.x + 1) as usize, y: sel.end.y })
                            && switched(mid, *final(self), Mode::Normal)
                },
                None => {
                    &&& r matches Err(e) && e is General && e.message_view() == "invalid sel?!"@
                    &&& *final(self) == *old(self)
                },
            },
    {
        if let Some(sel) = self.sel {
            let ret = self.delete_range(sel.start, Pos { x: sel.end.x + 1, y: sel.end.y });
            let ghost mid = *self;
            self.switch_mode(Mode::Normal);
            assert(switched(mid, *self, Mode::Normal));
            ret
        } else {
            Err(error_msg("invalid sel?!"))
        }
    }

    /// Deletes forwards from the cursor: to the end of the row, one
    /// character, or to the next word break (see `Doc::find_range`).
    pub fn delete_rel(&mut self, noun: Noun, rel: Rel) -> (r: Result<Status, Error>)
        requires
            old(self).wf(),
            has_room(*old(self)),
            cursor_in_doc(*old(self)),
            old(self).cursor_spec().y < old(self).rows().len(),
            rel == Rel::Next,
        ensures
            r matches Ok(Status::Success),
            ({
                let c = old(self).cursor_spec();
                let row = old(self).rows()[c.y as int]@;
                if row.len() == 0 || c.x >= row.len() - 1 {
                    *final(self) == *old(self)
                } else {
                    exists|wb: int|
                        is_next_word_break(row, c.x as int, wb) && deleted(
                            *old(self),
                            *final(self),
                            c,
                            Pos { x: noun_end(row, c.x as int, noun, wb) as usize, y: c.y },
                        )
                }
            }),
    {
        let (start, end) = self.doc.find_range(self.cursor, noun, rel);
        self.delete_range(start, end)
    }

    /// Joins the cursor's row with the next one.
    pub fn join_line(&mut self) -> (r: Result<Status, Error>)
        requires
            old(self).wf(),
            has_room(*old(self)),
            old(self).cursor_spec().y + 1 < old(self).rows().len(),
        ensures
            r matches Ok(Status::Success),
            ({
                let y = old(self).cursor_spec().y;
                deleted(
                    *old(self),
                    *final(self),
                    Pos { x: old(self).rows()[y as int]@.len() as usize, y },
                    Pos { x: 0, y: (y + 1) as usize },
                )
            }),
    {
        let _n = self.doc.line_count();
        let len = match self.doc.get_row(self.cursor.y) {
            Some(row) => row.len(),
            None => 0,
        };
        self.delete_range(Pos { x: len, y: self.cursor.y }, Pos { x: 0, y: self.cursor.y + 1 })
    }

    /// Applies `op` to the text from `start` up to `end`: a deletion that
    /// returns to normal mode, or a change that enters insert mode.
    pub fn do_op_to_range(&mut self, op: Op, start: Pos, end: Pos) -> (r: Result<Status, Error>)
        requires
            old(self).wf(),
            has_room(*old(self)),
            op != Op::Yank,
            span_ok(old(self).rows(), start, end),
        ensures
            r matches Ok(Status::Success),
            exists|mid: DocView| deleted(*old(self), mid, start, end) && switched(mid, *final(self), mode_after(op)),
    {
        let ret = self.delete_range(start, end);
        let ghost mid = *self;
        match op {
            Op::Delete => self.switch_mode(Mode::Normal),
            _ => self.switch_mode(Mode::Insert),
        }
        assert(switched(mid, *self, mode_after(op)));
        ret
    }

    /// The error for a motion that the view does not know.
    fn motion_error(noun: Noun, rel: Rel) -> (e: Error)
        ensures
            e is NotImplemented,
            e.message_view() == motion_message(noun, rel),
    {
        let mut m = String::new();
        push_str(&mut m, "DocView: Don't know how to handle relative motion for (");
        push_str(&mut m, noun.name());
        push_str(&mut m, ", ");
        push_str(&mut m, rel.name());
        push_str(&mut m, ").");
        Error::not_impl(m)
    }

    /// Applies `op` from the cursor to where the motion `(noun, rel)` ends,
    /// that end included.
    pub fn do_op_rel(&mut self, op: Op, noun: Noun, rel: Rel) -> (r: Result<Status, Error>)
        requires
            old(self).wf(),
            op_rel_ok(*old(self), op, noun, rel),
        ensures
            match op_target(*old(self), noun, rel) {
                None => {
                    &&& r matches Err(e) && e is NotImplemented && e.message_view() == motion_message(noun, rel)
                    &&& *final(self) == *old(self)
                },
                Some(None) => {
                    &&& r matches Err(e) && e is General && e.message_view() == "couldn't get an end pos?!"@
                    &&& *final(self) == *old(self)
                },
                Some(Some(end)) => {
                    &&& r matches Ok(Status::Success)
                    &&& exists|mid: DocView|
                        deleted(*old(self), mid, old(self).cursor_spec(), past(end)) && switched(
                            mid,
                            *final(self),
                            mode_after(op),
                        )
                },
            },
    {
        let end_pos: Option<Pos> = match (noun, rel) {
            (Noun::Char, Rel::Prior) => Some(self.get_rel_cursor_pos(-1, 0)),
            (Noun::Char, Rel::Next) => Some(self.get_rel_cursor_pos(1, 0)),
            (Noun::Line, Rel::Prior) => Some(self.get_rel_cursor_pos(0, -1)),
            (Noun::Line, Rel::Next) => Some(self.get_rel_cursor_pos(0, 1)),
            (Noun::Word, Rel::Next) => self.doc.get_next_word_pos(self.cursor),
            (Noun::Word, Rel::Prior) => self.doc.get_prior_word_pos(self.cursor),
            _ => {
                return Err(Self::motion_error(noun, rel));
            },
        };
        if let Some(end_pos) = end_pos {
            let c = self.cursor;
            self.do_op_to_range(op, c, Pos { x: end_pos.x + 1, y: end_pos.y })
        } else {
            Err(error_msg("couldn't get an end pos?!"))
        }
    }

    /// Moves the cursor by the motion `(noun, rel)`: a character or a line
    /// either way, or to the next or prior word.
    pub fn move_cursor_rel(&mut self, noun: Noun, rel: Rel) -> (r: Result<Status, Error>)
        requires
            old(self).wf(),
            motion_ok(*old(self), noun, rel),
        ensures
            motion_known(noun, rel) ==> (r matches Ok(Status::Success) && moved_rel(*old(self), *final(self), noun, rel)),
            !motion_known(noun, rel) ==> {
                &&& r matches Err(e) && e is NotImplemented && e.message_view() == motion_message(noun, rel)
                &&& *final(self) == *old(self)
            },
    {
        match (noun, rel) {
            (Noun::Char, Rel::Prior) => self.move_cursor(-1, 0),
            (Noun::Char, Rel::Next) => self.move_cursor(1, 0),
            (Noun::Line, Rel::Prior) => self.move_cursor(0, -1),
            (Noun::Line, Rel::Next) => self.move_cursor(0, 1),
            (Noun::Word, Rel::Next) => {
                let p = self.doc.get_next_word_pos(self.cursor);
                self.jump_cursor_pos(p);
                Ok(Status::Success)
            },
            (Noun::Word, Rel::Prior) => {
                if let Some(pos) = self.doc.get_prior_word_pos(self.cursor) {
                    self.jump_cursor(Some(pos.x), Some(pos.y));
                }
                Ok(Status::Success)
            },
            _ => Err(Self::motion_error(noun, rel)),
        }
    }

    /// The status for a key that nothing is bound to, shown for `ms`
    /// milliseconds.
    fn no_mapping(&self, key: Key, ms: u64) -> (st: Status)
        ensures
            st matches Status::Message { message, duration_ms } && message@ == no_mapping_message(key, self.mode_spec()) && duration_ms == ms,
    {
        let mut m = String::new();
        push_str(&mut m, "No mapping found for ");
        let k = key.to_string();
        push_str(&mut m, k.as_str());
        push_str(&mut m, " in ");
        push_mode_debug(&mut m, self.mode);
        push_str(&mut m, " mode.");
        Status::Message { message: m, duration_ms: ms }
    }

    /// Handles a key that no binding took: insert mode inserts a character;
    /// normal and visual modes report that nothing is bound to it.
    pub fn send_key(&mut self, key: Key) -> (r: Result<Status, Error>)
        requires
            old(self).wf(),
            key_safe(*old(self), key),
        ensures
            key_effect(*old(self), *final(self), key, r),
            final(self).key_spec() == old(self).key_spec(),
            final(self).wf(),
    {
        match self.mode {
            Mode::Normal | Mode::Visual(_) => Ok(self.no_mapping(key, 5000)),
            Mode::Insert => match key {
                Key::Utf8(ch) => self.insert_char(ch),
                _ => Ok(self.no_mapping(key, 2500)),
            },
            _ => {
                let mut m = String::new();
                push_str(&mut m, "don't yet know how to handle send_keys in mode '");
                push_mode_debug(&mut m, self.mode);
                push_str(&mut m, "'");
                Err(Error::new(m))
            },
        }
    }

    /// The value of a property of the view: whether the document changed,
    /// its file name, the cursor's position, or the status text.
    pub fn get_property(&self, property: &str) -> (v: Option<Variant>)
        requires
            self.cursor_spec().x < usize::MAX,
            self.cursor_spec().y < usize::MAX,
        ensures
            property@ == PROP_DOC_IS_MODIFIED@ ==> v == Some(Variant::Bool(self.doc_spec().is_dirty_spec())),
            property@ == PROP_DOC_FILENAME@ ==> match self.doc_spec().filename() {
                Some(f) => (v matches Some(Variant::String(t)) && t@ == f@),
                None => v is None,
            },
            property@ == PROP_DOCVIEW_CURSOR_POS@ ==> v == Some(Variant::Pos(self.cursor_spec())),
            property@ == PROP_DOCVIEW_STATUS@ ==> (v matches Some(Variant::String(t)) && t@ == status_text(
                self.mode_spec(),
                self.cursor_spec(),
            )),
            !(property@ == PROP_DOC_IS_MODIFIED@ || property@ == PROP_DOC_FILENAME@ || property@
                == PROP_DOCVIEW_CURSOR_POS@ || property@ == PROP_DOCVIEW_STATUS@) ==> v is None,
    {
        proof {
            reveal_strlit("doc-is-modified");
            reveal_strlit("doc-filename");
            reveal_strlit("docview-cursor-pos");
            reveal_strlit("docview-status");
            assert(PROP_DOC_IS_MODIFIED@ != PROP_DOC_FILENAME@ && PROP_DOC_IS_MODIFIED@ != PROP_DOCVIEW_CURSOR_POS@
                && PROP_DOC_IS_MODIFIED@ != PROP_DOCVIEW_STATUS@ && PROP_DOC_FILENAME@ != PROP_DOCVIEW_CURSOR_POS@
                && PROP_DOC_FILENAME@ != PROP_DOCVIEW_STATUS@ && PROP_DOCVIEW_CURSOR_POS@ != PROP_DOCVIEW_STATUS@) by {
                assert(PROP_DOC_IS_MODIFIED@[4] != PROP_DOC_FILENAME@[4]);
                assert(PROP_DOC_IS_MODIFIED@[0] != PROP_DOCVIEW_CURSOR_POS@[3]);
                assert(PROP_DOCVIEW_CURSOR_POS@[8] != PROP_DOCVIEW_STATUS@[8]);
                assert(PROP_DOC_FILENAME@.len() != PROP_DOCVIEW_CURSOR_POS@.len());
            }
        }
        if str_eq(property, PROP_DOC_IS_MODIFIED) {
            Some(Variant::Bool(self.doc.is_dirty()))
        } else if str_eq(property, PROP_DOC_FILENAME) {
            match self.doc.get_filename() {
                Some(f) => Some(Variant::from_str(f)),
                None => None,
            }
        } else if str_eq(property, PROP_DOCVIEW_CURSOR_POS) {
            Some(Variant::Pos(self.cursor))
        } else if str_eq(property, PROP_DOCVIEW_STATUS) {
            let mut m = String::new();
            push_str(&mut m, "\u{2590} ");
            push_mode_debug(&mut m, self.mode);
            push_str(&mut m, " \u{2590} ");
            push_decimal_usize(&mut m, self.cursor.y + 1);
            push_str(&mut m, ":");
            push_decimal_usize(&mut m, self.cursor.x + 1);
            push_str(&mut m, " ");
            Some(Variant::String(m))
        } else {
            None
        }
    }

    /// Shows the document named `filename` that holds `lines`, as read from
    /// its file.
    pub fn open(&mut self, filename: String, lines: &Vec<String>) -> (r: Result<Status, Error>)
        ensures
            final(self).wf() <== old(self).mode_spec() != Mode::Visual(VisualMode::Char) || old(self).sel_spec() is Some,
            rows_view(final(self).rows()) == lines@.map_values(|l: String| l@),
            final(self).doc_spec().filename() == Some(filename),
            !final(self).doc_spec().is_dirty_spec(),
            final(self).doc_spec().history().0.len() == 0,
            final(self).key_spec() == old(self).key_spec(),
            final(self).cursor_spec() == old(self).cursor_spec(),
            final(self).sel_spec() == old(self).sel_spec(),
            final(self).render_x_spec() == old(self).render_x_spec(),
            final(self).scroll_spec() == old(self).scroll_spec(),
            final(self).mode_spec() == old(self).mode_spec(),
            r matches Ok(Status::Message { message, duration_ms }) && message@ == "Opened '"@ + filename@
                + "'."@ && duration_ms == 2000,
    {
        let mut m = String::new();
        push_str(&mut m, "Opened '");
        push_str(&mut m, filename.as_str());
        push_str(&mut m, "'.");
        let ghost f = filename;
        self.doc = Doc::open(filename, lines);
        proof {
            assert(rows_view(self.doc.rows()) =~= lines@.map_values(|l: String| l@));
        }
        Ok(Status::Message { message: m, duration_ms: 2000 })
    }

    /// Saving is not implemented: always an error.
    pub fn save_file(&mut self) -> (r: Result<Status, Error>)
        ensures
            r matches Err(e) && e is NotImplemented && e.message_view() == "come back"@,
            *final(self) == *old(self),
    {
        Err(crate::error::not_impl_msg("come back"))
    }

    /// Lays the view out in a window of `size`: scrolls to show the cursor;
    /// a document view has no child views.
    pub fn layout(&mut self, size: Size) -> (children: Vec<(ViewKey, Rect)>)
        requires
            old(self).scroll_spec().y + size.height <= usize::MAX,
            old(self).scroll_spec().x + size.width <= usize::MAX,
            old(self).cursor_spec().y < usize::MAX,
            old(self).render_x_spec() < usize::MAX,
        ensures
            children@.len() == 0,
            final(self).wf() == old(self).wf(),
            final(self).scroll_spec() == (Pos {
                x: scroll_axis(
                    old(self).render_x_spec() as int,
                    old(self).scroll_spec().x as int,
                    size.width as int,
                ) as usize,
                y: scroll_axis(
                    old(self).cursor_spec().y as int,
                    old(self).scroll_spec().y as int,
                    size.height as int,
                ) as usize,
            }),
            final(self).key_spec() == old(self).key_spec(),
            final(self).cursor_spec() == old(self).cursor_spec(),
            final(self).sel_spec() == old(self).sel_spec(),
            final(self).render_x_spec() == old(self).render_x_spec(),
            final(self).doc_spec() == old(self).doc_spec(),
            final(self).mode_spec() == old(self).mode_spec(),
            *final(self) == old(self).with_scroll(old(self).scroll_target(size)),
    {
        self.scroll(size);
        Vec::new()
    }

    /// Runs `n` steps of `s`, stopping at the first error.
    fn run_steps(&mut self, s: Step, n: i64) -> (r: Result<Status, Error>)
        requires
            old(self).wf(),
            steps_ok(s, *old(self), n as int),
        ensures
            repeated(s, *old(self), *final(self), n as int, r),
            final(self).key_spec() == old(self).key_spec(),
            final(self).wf(),
    {
        let ghost v0 = *self;
        let ghost mut tr: Seq<DocView> = seq![v0];
        let ghost mut rs: Seq<Result<Status, Error>> = Seq::empty();
        let mut i: i64 = 0;
        while i < n
            invariant
                0 <= i,
                n >= 0 ==> i <= n,
                n < 0 ==> i == 0,
                steps_ok(s, v0, n as int),
                v0 == *old(self),
                self.key_spec() == v0.key_spec(),
                self.wf(),
                trace_ok(s, tr, rs),
                tr[0] == v0,
                tr.last() == *self,
                rs.len() == i,
                rs.len() == 0 || rs.last() is Ok,
            decreases n - i,
        {
            let ghost mid = *self;
            assert(step_pre(s, mid));
            let res = match s {
                Step::MoveRel(noun, rel) => self.move_cursor_rel(noun, rel),
                Step::OpRel(op, noun, rel) => self.do_op_rel(op, noun, rel),
                Step::DeleteRel(noun, rel) => self.delete_rel(noun, rel),
            };
            proof {
                let tr1 = tr.push(*self);
                let rs1 = rs.push(res);
                assert(step_done(s, tr1[rs.len() as int], tr1[rs.len() as int + 1], rs1[rs.len() as int]));
                assert forall|k: int| 0 <= k < rs1.len() implies #[trigger] step_done(s, tr1[k], tr1[k + 1], rs1[k]) by {
                    if k < rs.len() {
                        assert(tr1[k] == tr[k] && tr1[k + 1] == tr[k + 1] && rs1[k] == rs[k]);
                    }
                }
                assert forall|k: int| 0 <= k < rs1.len() - 1 implies (#[trigger] rs1[k]) is Ok by {
                    assert(rs1[k] == rs[k]);
                }
                tr = tr1;
                rs = rs1;
            }
            if res.is_err() {
                proof {
                    assert(trace_ok(s, tr, rs) && tr[0] == v0 && tr.last() == *self);
                    assert(rs.last() == res);
                    assert(0 < rs.len() <= n && rs.last() is Err);
                    assert(repeated(s, v0, *self, n as int, res));
                }
                return res;
            }
            proof {
                assert(res matches Ok(Status::Success)) by {
                    match s {
                        Step::MoveRel(noun, rel) => {},
                        Step::OpRel(op, noun, rel) => {},
                        Step::DeleteRel(noun, rel) => {},
                    }
                }
            }
            i = i + 1;
        }
        proof {
            assert(trace_ok(s, tr, rs) && tr[0] == v0 && tr.last() == *self);
        }
        Ok(Status::Success)
    }

    /// The error of a failed argument check.
    fn ensure_error(check: &str) -> (e: Error)
        ensures
            e is General,
            e.message_view() == ensure_message(check@),
    {
        let mut m = String::new();
        push_str(&mut m, "(");
        push_str(&mut m, check);
        push_str(&mut m, ") is false");
        Error::new(m)
    }

    fn switch_mode_command(&mut self, args: &Vec<Variant>) -> (r: Result<Status, Error>)
        requires
            old(self).wf(),
        ensures
            switch_mode_effect(*old(self), *final(self), args@, r),
    {
        if args.len() != 1 {
            return Err(Self::ensure_error("args.len() == 1"));
        }
        match &args[0] {
            Variant::String(arg) => match Mode::from_str(arg.as_str()) {
                Ok(m) => {
                    self.switch_mode(m);
                    Ok(Status::Success)
                },
                Err(e) => Err(e),
            },
            _ => Err(error_msg("'switch-mode' expects a string")),
        }
    }

    fn motion_command(&mut self, args: &Vec<Variant>) -> (r: Result<Status, Error>)
        ensures
            motion_effect(*old(self), *final(self), args@, r),
    {
        if args.len() > 0 {
            if let Variant::String(op) = &args[0] {
                match Op::from_str(op.as_str()) {
                    Ok(op) => {
                        self.mode = Mode::NormalWithOp(op);
                    },
                    Err(e) => {
                        return Err(e);
                    },
                }
            }
        }
        Ok(Status::Success)
    }

    fn history_command(&mut self, redo: bool) -> (r: Result<Status, Error>)
        requires
            old(self).wf(),
        ensures
            history_effect(*old(self), *final(self), redo, r),
    {
        let pos = if redo {
            self.doc.redo_change()
        } else {
            self.doc.pop_change()
        };
        self.jump_cursor_pos(pos);
        if pos.is_none() {
            if redo {
                Ok(Status::message(String::from_str("Nothing left to redo.")))
            } else {
                Ok(Status::message(String::from_str("Nothing left to undo.")))
            }
        } else {
            Ok(Status::Success)
        }
    }

    fn move_command(&mut self, args: &Vec<Variant>) -> (r: Result<Status, Error>)
        requires
            old(self).wf(),
            args@.len() == 1 && args@[0] is String ==> old(self).cursor_spec().x < isize::MAX
                && old(self).cursor_spec().y < isize::MAX,
        ensures
            move_effect(*old(self), *final(self), args@, r),
    {
        if args.len() != 1 {
            return Err(Self::ensure_error("args.len() == 1"));
        }
        match &args[0] {
            Variant::String(arg) => {
                let a = arg.as_str();
                if str_eq(a, "up") {
                    self.move_cursor(0, -1)
                } else if str_eq(a, "down") {
                    self.move_cursor(0, 1)
                } else if str_eq(a, "left") {
                    self.move_cursor(-1, 0)
                } else if str_eq(a, "right") {
                    self.move_cursor(1, 0)
                } else {
                    Err(error_msg("'move' expects one of {up,down,left,right}"))
                }
            },
            _ => Err(error_msg("'move' expects a direction")),
        }
    }

    fn newline_command(&mut self, args: &Vec<Variant>) -> (r: Result<Status, Error>)
        requires
            old(self).wf(),
            has_room(*old(self)),
            args@.len() == 0 ==> old(self).cursor_spec().y < old(self).rows().len(),
            args@.len() == 1 && is_str(args@[0], "above"@) ==> old(self).cursor_spec().y <= old(self).rows().len(),
            args@.len() == 1 && is_str(args@[0], "below"@) ==> old(self).cursor_spec().y < old(self).rows().len(),
        ensures
            newline_effect(*old(self), *final(self), args@, r),
    {
        if args.len() == 0 {
            return self.split_newline();
        }
        if args.len() == 1 {
            if let Variant::String(arg) = &args[0] {
                let a = arg.as_str();
                if str_eq(a, "above") {
                    return self.insert_newline_above();
                } else if str_eq(a, "below") {
                    return self.insert_newline_below();
                } else {
                    return Err(error_msg("'newline' expects one of {above,below}"));
                }
            }
        }
        let mut m = String::new();
        push_str(&mut m, "'newline' encountered unexpected options. [args=");
        push_variants_debug(&mut m, args);
        push_str(&mut m, "]");
        Err(Error::new(m))
    }

    /// Runs a command on the view: switching modes, moving the cursor,
    /// editing, undoing and redoing. Opening a file is done by `open`, which
    /// is given the file's lines.
    pub fn execute_command(&mut self, name: String, args: Vec<Variant>) -> (r: Result<Status, Error>)
        requires
            old(self).wf(),
            command_safe(*old(self), name@, args@),
        ensures
            command_effect(*old(self), *final(self), name@, args@, r),
            final(self).key_spec() == old(self).key_spec(),
            final(self).wf(),
    {
        let n = name.as_str();
        if str_eq(n, "switch-mode") {
            return self.switch_mode_command(&args);
        } else if str_eq(n, "quit") {
            return Ok(Status::Quit);
        }
        let mode = self.mode;
        let normal = mode == Mode::Normal;
        let visual_char = mode == Mode::Visual(VisualMode::Char);
        if normal && str_eq(n, "motion") {
            self.motion_command(&args)
        } else if normal && str_eq(n, "undo") {
            self.history_command(false)
        } else if normal && str_eq(n, "redo") {
            self.history_command(true)
        } else if str_eq(n, "join-lines") {
            if args.len() != 0 {
                return Err(Self::ensure_error("args.is_empty()"));
            }
            self.join_line()
        } else if str_eq(n, "delete-backwards") {
            Err(Self::ensure_error("args.is_empty()"))
        } else if str_eq(n, "delete-forwards") {
            if args.len() != 0 {
                return Err(Self::ensure_error("args.is_empty()"));
            }
            self.delete_rel(Noun::Char, Rel::Next)
        } else if visual_char && str_eq(n, "delete") {
            self.delete_sel()
        } else if normal && str_eq(n, "open") {
            if args.len() != 1 {
                Err(Self::ensure_error("args.len() == 1"))
            } else {
                Err(error_msg("'open' expects a filename"))
            }
        } else if (normal || visual_char) && str_eq(n, "move") {
            self.move_command(&args)
        } else if str_eq(n, "newline") {
            self.newline_command(&args)
        } else if str_eq(n, "move-rel") {
            if !(2 <= args.len() && args.len() <= 3) {
                return Err(Self::ensure_error("(2..=3).contains(&args.len())"));
            }
            let (noun, rel, count) = match pull_noun_rel_count(&args) {
                Ok(t) => t,
                Err(e) => {
                    return Err(e);
                },
            };
            match mode {
                Mode::NormalWithOp(op) => self.run_steps(Step::OpRel(op, noun, rel), count),
                _ => self.run_steps(Step::MoveRel(noun, rel), count),
            }
        } else if normal && str_eq(n, "delete-rel") {
            let (noun, rel, count) = match pull_noun_rel_count(&args) {
                Ok(t) => t,
                Err(e) => {
                    return Err(e);
                },
            };
            self.run_steps(Step::DeleteRel(noun, rel), count)
        } else {
            let mut m = String::new();
            push_str(&mut m, "DocView::execute_command needs to handle ");
            let d = debug_str(n);
            push_str(&mut m, d.as_str());
            push_str(&mut m, " ");
            push_variants_debug(&mut m, &args);
            push_str(&mut m, " in mode ");
            push_mode_debug(&mut m, mode);
            push_str(&mut m, ".");
            Err(Error::not_impl(m))
        }
    }

    /// Whether the view is in normal mode.
    pub fn mode_is_normal(&self) -> (b: bool)
        ensures
            b == (self.mode_spec() == Mode::Normal),
    {
        self.mode == Mode::Normal
    }

    /// Whether `send_key(key)` can run on the view (see `key_safe`).
    pub fn key_is_safe(&self, key: Key) -> (b: bool)
        ensures
            b == key_safe(*self, key),
    {
        if self.mode == Mode::Insert && matches!(key, Key::Utf8(_)) {
            self.doc.history_index() < usize::MAX && self.cursor_fits() && self.cursor.x < usize::MAX
        } else {
            true
        }
    }

    /// Whether both ends of a deletion stand inside existing rows.
    fn span_fits(&self, start: Pos, end: Pos) -> (b: bool)
        ensures
            b == span_ok(self.rows(), start, end),
    {
        match (self.doc.get_row(start.y), self.doc.get_row(end.y)) {
            (Some(a), Some(b)) => start.x <= a.len() && end.x <= b.len(),
            _ => false,
        }
    }

    /// Whether the cursor stands in the document.
    fn cursor_fits(&self) -> (b: bool)
        ensures
            b == cursor_in_doc(*self),
    {
        let n = self.doc.line_count();
        if self.cursor.y > n {
            return false;
        }
        match self.doc.get_row(self.cursor.y) {
            Some(row) => self.cursor.x <= row.len(),
            None => true,
        }
    }

    /// Whether the rows are few and short enough for every cursor
    /// coordinate to fit in an `isize`.
    fn doc_is_small(&self) -> (b: bool)
        ensures
            b == doc_small(*self),
    {
        let n = self.doc.line_count();
        if n >= isize::MAX as usize {
            return false;
        }
        let mut i: usize = 0;
        while i < n
            invariant
                i <= n,
                n == self.rows().len(),
                forall|j: int| 0 <= j < i ==> (#[trigger] self.rows()[j])@.len() < isize::MAX,
            decreases n - i,
        {
            match self.doc.get_row(i) {
                Some(row) => {
                    if row.len() >= isize::MAX as usize {
                        return false;
                    }
                },
                None => {},
            }
            i = i + 1;
        }
        true
    }

    /// Whether a motion can be made from the view.
    fn motion_fits(&self, noun: Noun, rel: Rel) -> (b: bool)
        ensures
            b == motion_ok(*self, noun, rel),
    {
        let c = self.cursor;
        let word = noun == Noun::Word && (rel == Rel::Next || rel == Rel::Prior);
        match (noun, rel) {
            (Noun::Char, Rel::Prior) => c.x <= isize::MAX as usize && c.y <= isize::MAX as usize,
            (Noun::Char, Rel::Next) => c.x < isize::MAX as usize && c.y <= isize::MAX as usize,
            (Noun::Line, Rel::Prior) => c.x <= isize::MAX as usize && c.y <= isize::MAX as usize,
            (Noun::Line, Rel::Next) => c.x <= isize::MAX as usize && c.y < isize::MAX as usize,
            _ => {
                let x_ok = match self.doc.get_row(c.y) {
                    Some(row) => c.x <= row.len(),
                    None => true,
                };
                (!word || x_ok) && (!(noun == Noun::Word && rel == Rel::Prior) || self.doc.line_count() > 0 || c.y > 0)
            },
        }
    }

    /// Whether `op` can act once over the motion `(noun, rel)`.
    fn op_rel_fits(&self, op: Op, noun: Noun, rel: Rel) -> (b: bool)
        requires
            self.wf(),
        ensures
            b == op_rel_ok(*self, op, noun, rel),
    {
        if !self.motion_fits(noun, rel) {
            return false;
        }
        let end: Option<Pos> = match (noun, rel) {
            (Noun::Char, Rel::Prior) => Some(self.get_rel_cursor_pos(-1, 0)),
            (Noun::Char, Rel::Next) => Some(self.get_rel_cursor_pos(1, 0)),
            (Noun::Line, Rel::Prior) => Some(self.get_rel_cursor_pos(0, -1)),
            (Noun::Line, Rel::Next) => Some(self.get_rel_cursor_pos(0, 1)),
            (Noun::Word, Rel::Next) => self.doc.get_next_word_pos(self.cursor),
            (Noun::Word, Rel::Prior) => self.doc.get_prior_word_pos(self.cursor),
            _ => None,
        };
        match end {
            Some(e) => self.doc.history_index() < usize::MAX && op != Op::Yank && e.x < usize::MAX && self.span_fits(
                self.cursor,
                Pos { x: e.x + 1, y: e.y },
            ),
            None => true,
        }
    }

    /// Whether `execute_command(name, args)` can run on the view (see
    /// `command_safe`); a run of two or more operator motions counts as
    /// unable to run.
    pub fn command_is_safe(&self, name: &str, args: &Vec<Variant>) -> (b: bool)
        requires
            self.wf(),
        ensures
            b == command_checked(*self, name@, args@),
            b ==> command_safe(*self, name@, args@),
    {
        let mode = self.mode;
        let normal = mode == Mode::Normal;
        let visual_char = mode == Mode::Visual(VisualMode::Char);
        let room = self.doc.history_index() < usize::MAX;
        let c = self.cursor;
        let n = self.doc.line_count();
        if str_eq(name, "switch-mode") || str_eq(name, "quit") {
            true
        } else if normal && str_eq(name, "motion") {
            true
        } else if normal && (str_eq(name, "undo") || str_eq(name, "redo")) {
            true
        } else if str_eq(name, "join-lines") {
            args.len() != 0 || (room && c.y < n && c.y + 1 < n)
        } else if str_eq(name, "delete-backwards") {
            args.len() != 0
        } else if str_eq(name, "delete-forwards") {
            args.len() != 0 || (room && self.cursor_fits() && c.y < n)
        } else if visual_char && str_eq(name, "delete") {
            match self.sel {
                Some(sel) => room && sel.end.x < usize::MAX && self.span_fits(sel.start, Pos { x: sel.end.x + 1, y: sel.end.y }),
                None => false,
            }
        } else if normal && str_eq(name, "open") {
            !(args.len() == 1 && matches!(args[0], Variant::String(_)))
        } else if (normal || visual_char) && str_eq(name, "move") {
            !(args.len() == 1 && matches!(args[0], Variant::String(_))) || (c.x < isize::MAX as usize && c.y < isize::MAX as usize)
        } else if str_eq(name, "newline") {
            proof {
                reveal_strlit("above");
                reveal_strlit("below");
            }
            let above = args.len() == 1 && match &args[0] {
                Variant::String(a) => str_eq(a.as_str(), "above"),
                _ => false,
            };
            let below = args.len() == 1 && match &args[0] {
                Variant::String(a) => str_eq(a.as_str(), "below"),
                _ => false,
            };
            room && (args.len() != 0 || c.y < n) && (!above || c.y <= n) && (!below || c.y < n)
        } else if str_eq(name, "move-rel") || (normal && str_eq(name, "delete-rel")) {
            let is_move = str_eq(name, "move-rel");
            if is_move && !(2 <= args.len() && args.len() <= 3) {
                return true;
            }
            let parsed = pull_noun_rel_count(args);
            match parsed {
                Err(_) => true,
                Ok((noun, rel, count)) => {
                    if count <= 0 {
                        return true;
                    }
                    if is_move {
                        match mode {
                            Mode::NormalWithOp(op) => {
                                if count == 1 && self.op_rel_fits(op, noun, rel) {
                                    proof {
                                        let st = Step::OpRel(op, noun, rel);
                                        assert forall|tr: Seq<DocView>, rs: Seq<Result<Status, Error>>|
                                            #[trigger] trace_ok(st, tr, rs) && tr[0] == *self && rs.len() < count
                                                && (rs.len() == 0 || rs.last() is Ok) implies step_pre(st, tr.last()) by {
                                            assert(tr.last() == tr[0]);
                                        }
                                    }
                                    true
                                } else {
                                    false
                                }
                            },
                            _ => {
                                if self.motion_fits(noun, rel) && self.doc_is_small() {
                                    proof {
                                        lemma_move_steps_ok(*self, noun, rel, count as int);
                                    }
                                    true
                                } else {
                                    false
                                }
                            },
                        }
                    } else {
                        let idx = self.doc.history_index();
                        if rel == Rel::Next && self.cursor_fits() && c.y < n && (count as u64) <= (usize::MAX - idx) as u64 {
                            proof {
                                lemma_delete_steps_ok(*self, noun, count as int);
                            }
                            true
                        } else {
                            false
                        }
                    }
                },
            }
        } else {
            true
        }
    }

    /// The key bindings of the view in its current mode.
    pub fn get_key_bindings(&self) -> (b: Bindings)
        ensures
            b.wf(),
            bound_keys(b.entries()) == docview_keys(self.mode_spec()),
            docview_bound(b.entries(), self.key_spec(), self.mode_spec()),
    {
        let vk = self.key;
        let mut builder = BindingsBuilder::new(vk);
        let mode = self.mode;
        proof {
            assert(bound_keys(builder.bindings.entries()) =~= Seq::<Seq<Key>>::empty());
        }
        if mode == Mode::Normal || matches!(mode, Mode::Visual(_)) {
            bind_motions(&mut builder);
        }
        if matches!(mode, Mode::Visual(_)) || matches!(mode, Mode::NormalWithOp(_)) {
            bind_objects(&mut builder);
        }
        match mode {
            Mode::NormalWithOp(op) => bind_op_motions(&mut builder, op),
            Mode::NormalWithOpObjMode(_op, _obj_mode) => {
                proof {
                    reveal_strlit("w");
                    lemma_str_keys1("w"@, 'w');
                }
                bind(&mut builder, "w", command("word"));
                assert(bound_keys(builder.bindings.entries()) =~= docview_keys(mode));
            },
            Mode::Visual(_) => {
                proof {
                    lemma_one_key_eq();
                    reveal_strlit("x");
                    lemma_str_keys1("x"@, 'x');
                }
                bind(&mut builder, Key::Esc, command("switch-mode").arg(Variant::from_str("normal")));
                bind(&mut builder, "x", command("delete"));
                assert(bound_keys(builder.bindings.entries()) =~= docview_keys(mode));
            },
            Mode::Insert => {
                proof {
                    lemma_one_key_eq();
                    reveal_strlit("jk");
                    assert(str_keys_spec("jk"@) =~= seq![Key::Utf8('j'), Key::Utf8('k')]);
                }
                bind(&mut builder, Key::Esc, command("switch-mode").arg(Variant::from_str("normal")));
                bind(&mut builder, "jk", DK::Key(Key::Esc));
                bind(&mut builder, Key::Backspace, command("delete-backwards"));
                bind(&mut builder, Key::Enter, command("newline"));
                assert(bound_keys(builder.bindings.entries()) =~= docview_keys(mode));
            },
            Mode::Normal => bind_normal(&mut builder),
        }
        builder.get_bindings()
    }

    /// The runs of text of a row on which the selection from `start` to
    /// `end` starts and ends (see `sel_line_spans`).
    #[verifier::rlimit(60)]
    fn sel_spans(&self, start: Pos, end: Pos, screen_pos: Pos, render_start: Pos, width: usize) -> (spans: Vec<Span<'_>>)
        requires
            screen_pos.x <= width,
            line_start_ok(self.rows(), render_start, width as int),
        ensures
            spans@.map_values(|sp: Span| span_view(sp)) == sel_line_spans(self.rows(), start, end, screen_pos, render_start, width as int),
    {
        let mut spans: Vec<Span<'_>> = Vec::new();
        let mut screen_pos = screen_pos;
        let mut render_start = render_start;
        let ghost sp0 = screen_pos;
        let ghost rs0 = render_start;
        let ghost mut want: Seq<(Pos, Seq<char>, Format)> = Seq::empty();
        if start.x > render_start.x {
            let n = if start.x - render_start.x < width - screen_pos.x {
                start.x - render_start.x
            } else {
                width - screen_pos.x
            };
            let chars = self.doc.render_line_slice(render_start, n);
            spans.push(Span { screen_pos, chars, format: Format::none() });
            proof {
                want = seq![(screen_pos, chars@, plain())];
            }
            screen_pos.x = screen_pos.x + chars.len();
            render_start.x = render_start.x + chars.len();
        }
        assert(spans@.map_values(|sp: Span| span_view(sp)) =~= want);
        if screen_pos.x < width && end.x > render_start.x {
            let n = if end.x - render_start.x < width - screen_pos.x {
                end.x - render_start.x
            } else {
                width - screen_pos.x
            };
            let chars = self.doc.render_line_slice(render_start, n);
            spans.push(Span { screen_pos, chars, format: Format::selected() });
            proof {
                want = want + seq![(screen_pos, chars@, highlighted())];
                assert(spans@.map_values(|sp: Span| span_view(sp)) =~= want);
            }
            screen_pos.x = screen_pos.x + chars.len();
            render_start.x = render_start.x + chars.len();
        }
        if screen_pos.x < width {
            let chars = self.doc.render_line_slice(render_start, width - screen_pos.x);
            spans.push(Span { screen_pos, chars, format: Format::none() });
            proof {
                want = want + seq![(screen_pos, chars@, plain())];
                assert(spans@.map_values(|sp: Span| span_view(sp)) =~= want);
            }
        }
        proof {
            assert(want =~= sel_line_spans(self.rows(), start, end, sp0, rs0, width as int));
        }
        spans
    }

    /// The runs of text that show row `render_start.y` from column
    /// `render_start.x` at `screen_pos`, in a line `width` cells wide (see
    /// `line_spans`).
    fn get_line_fmt_spans(&self, screen_pos: Pos, render_start: Pos, width: usize) -> (spans: Vec<Span<'_>>)
        requires
            screen_pos.x <= width,
            line_start_ok(self.rows(), render_start, width as int),
            self.sel_spec() matches Some(sel) ==> sel.start.x < usize::MAX,
        ensures
            spans@.map_values(|sp: Span| span_view(sp)) == line_spans(self.rows(), self.sel_spec(), screen_pos, render_start, width as int),
    {
        if let Some(sel) = self.sel {
            let (start, end) = if sel.end.lt(&sel.start) {
                (sel.end, Pos { x: sel.start.x + 1, y: sel.start.y })
            } else {
                (sel.start, sel.end)
            };
            if start.y == render_start.y {
                if end.y == render_start.y {
                    return self.sel_spans(start, end, screen_pos, render_start, width);
                }
                let spans: Vec<Span<'_>> = Vec::new();
                assert(spans@.map_values(|sp: Span| span_view(sp)) =~= Seq::<(Pos, Seq<char>, Format)>::empty());
                return spans;
            }
        }
        let mut spans: Vec<Span<'_>> = Vec::new();
        let chars = self.doc.render_line_slice(render_start, width);
        spans.push(Span { screen_pos, chars, format: Format::none() });
        assert(spans@.map_values(|sp: Span| span_view(sp)) =~= seq![(screen_pos, chars@, plain())]);
        spans
    }

    /// Draws the spans into `frame` of `bitmap`, one after the other.
    fn draw_spans(bitmap: &mut Bitmap, frame: Rect, spans: &Vec<Span<'_>>, y: usize)
        requires
            old(bitmap).wf(),
            frame.x + frame.width <= old(bitmap).size_spec().width,
            frame.y + frame.height <= old(bitmap).size_spec().height,
            y < frame.height,
            forall|k: int| 0 <= k < spans@.len() ==> (#[trigger] spans@[k]).screen_pos.y == y,
        ensures
            final(bitmap).wf(),
            same_but_glyphs(*final(bitmap), *old(bitmap)),
            final(bitmap).glyphs_spec() == spans_drawn(
                old(bitmap).glyphs_spec(),
                frame,
                old(bitmap).size_spec().width as int,
                spans@.map_values(|sp: Span| span_view(sp)),
            ),
    {
        let ghost g0 = bitmap.glyphs_spec();
        let ghost w = bitmap.size_spec().width as int;
        let ghost sv = spans@.map_values(|sp: Span| span_view(sp));
        let mut k: usize = 0;
        while k < spans.len()
            invariant
                k <= spans@.len(),
                bitmap.wf(),
                same_but_glyphs(*bitmap, *old(bitmap)),
                frame.x + frame.width <= bitmap.size_spec().width,
                frame.y + frame.height <= bitmap.size_spec().height,
                y < frame.height,
                forall|j: int| 0 <= j < spans@.len() ==> (#[trigger] spans@[j]).screen_pos.y == y,
                g0 == old(bitmap).glyphs_spec(),
                w == old(bitmap).size_spec().width,
                sv == spans@.map_values(|sp: Span| span_view(sp)),
                bitmap.glyphs_spec() == spans_drawn(g0, frame, w, sv.take(k as int)),
            decreases spans@.len() - k,
        {
            let span = &spans[k];
            assert(span.screen_pos.y == y);
            let _n = draw_chars(bitmap, frame, span.screen_pos, span.chars, span.format);
            proof {
                let t = sv.take(k + 1);
                assert(t.drop_last() =~= sv.take(k as int));
                assert(t.last() == span_view(*span));
            }
            k = k + 1;
        }
        assert(sv.take(spans@.len() as int) =~= sv);
    }

    /// Draws line `y` of the view into `frame` of `bitmap`.
    fn draw_line(&self, bitmap: &mut Bitmap, frame: Rect, y: usize)
        requires
            old(bitmap).wf(),
            frame.x + frame.width <= old(bitmap).size_spec().width,
            frame.y + frame.height <= old(bitmap).size_spec().height,
            y < frame.height,
            frame.height + self.scroll_spec().y <= usize::MAX,
            line_start_ok(self.rows(), line_start(self.scroll_spec(), y as int), frame.width as int),
            self.sel_spec() matches Some(sel) ==> sel.start.x < usize::MAX,
        ensures
            final(bitmap).wf(),
            same_but_glyphs(*final(bitmap), *old(bitmap)),
            final(bitmap).glyphs_spec() == spans_drawn(
                old(bitmap).glyphs_spec(),
                frame,
                old(bitmap).size_spec().width as int,
                line_spans(self.rows(), self.sel_spec(), Pos { x: 0, y }, line_start(self.scroll_spec(), y as int), frame.width as int),
            ),
    {
        let rs = Pos { x: self.scroll_offset.x, y: self.scroll_offset.y + y };
        let spans = self.get_line_fmt_spans(Pos { x: 0, y }, rs, frame.width);
        proof {
            lemma_line_spans_row(self.rows(), self.sel_spec(), Pos { x: 0, y }, rs, frame.width as int);
            let sv = spans@.map_values(|sp: Span| span_view(sp));
            assert forall|k: int| 0 <= k < spans@.len() implies (#[trigger] spans@[k]).screen_pos.y == y by {
                assert(sv[k] == span_view(spans@[k]));
            }
        }
        Self::draw_spans(bitmap, frame, &spans, y);
    }


    /// Draws the view into `bmp`: each shown line its row's runs of text
    /// (see `line_spans`), then a `~` at the start of each line below.
    pub fn display(&self, bmp: &mut BitmapView)
        requires
            old(bmp).fits(),
            display_ok(*self, old(bmp).frame),
        ensures
            final(bmp).fits(),
            final(bmp).frame == old(bmp).frame,
            *final(final(bmp).bitmap) == *final(old(bmp).bitmap),
            same_but_glyphs(*final(bmp).bitmap, *old(bmp).bitmap),
            final(bmp).bitmap.glyphs_spec() == doc_drawn(
                *self,
                old(bmp).bitmap.glyphs_spec(),
                old(bmp).frame,
                old(bmp).bitmap.size_spec().width as int,
            ),
    {
        self.draw_view(bmp.bitmap, bmp.frame);
    }

    /// Draws the view into `frame` of `bitmap` (see `display`).
    fn draw_view(&self, bitmap: &mut Bitmap, frame: Rect)
        requires
            old(bitmap).wf(),
            frame.x + frame.width <= old(bitmap).size_spec().width,
            frame.y + frame.height <= old(bitmap).size_spec().height,
            frame.height + self.scroll_spec().y <= usize::MAX,
            forall|y: int|
                0 <= y < shown_lines(self.rows(), self.scroll_spec(), frame.height as int) ==> line_start_ok(
                    self.rows(),
                    #[trigger] line_start(self.scroll_spec(), y),
                    frame.width as int,
                ),
            self.sel_spec() matches Some(sel) ==> sel.start.x < usize::MAX,
            frame.width > 0 || shown_lines(self.rows(), self.scroll_spec(), frame.height as int) == frame.height,
        ensures
            final(bitmap).wf(),
            same_but_glyphs(*final(bitmap), *old(bitmap)),
            final(bitmap).glyphs_spec() == ({
                let w = old(bitmap).size_spec().width as int;
                let n = shown_lines(self.rows(), self.scroll_spec(), frame.height as int);
                tildes_drawn(
                    lines_drawn(old(bitmap).glyphs_spec(), frame, w, self.rows(), self.sel_spec(), self.scroll_spec(), n),
                    frame,
                    w,
                    n,
                    frame.height as int,
                )
            }),
    {
        let ghost g0 = bitmap.glyphs_spec();
        let ghost w = bitmap.size_spec().width as int;
        let height = frame.height;
        let width = frame.width;
        let line_count = self.doc.line_count();
        let offset_line_count = if self.scroll_offset.y >= line_count {
            line_count
        } else {
            line_count - self.scroll_offset.y
        };
        let ghost n = shown_lines(self.rows(), self.scroll_spec(), height as int);
        let mut y: usize = 0;
        loop
            invariant
                y <= height,
                y <= offset_line_count,
                offset_line_count == (if self.scroll_spec().y >= self.rows().len() {
                    self.rows().len() as int
                } else {
                    self.rows().len() - self.scroll_spec().y
                }),
                n == shown_lines(self.rows(), self.scroll_spec(), height as int),
                height == frame.height,
                width == frame.width,
                bitmap.wf(),
                same_but_glyphs(*bitmap, *old(bitmap)),
                frame.x + frame.width <= bitmap.size_spec().width,
                frame.y + frame.height <= bitmap.size_spec().height,
                frame.height + self.scroll_spec().y <= usize::MAX,
                forall|yy: int|
                    0 <= yy < n ==> line_start_ok(
                        self.rows(),
                        #[trigger] line_start(self.scroll_spec(), yy),
                        frame.width as int,
                    ),
                self.sel_spec() matches Some(sel) ==> sel.start.x < usize::MAX,
                g0 == old(bitmap).glyphs_spec(),
                w == old(bitmap).size_spec().width,
                bitmap.glyphs_spec() == lines_drawn(g0, frame, w, self.rows(), self.sel_spec(), self.scroll_spec(), y as int),
            ensures
                y == n,
                bitmap.wf(),
                same_but_glyphs(*bitmap, *old(bitmap)),
                bitmap.glyphs_spec() == lines_drawn(g0, frame, w, self.rows(), self.sel_spec(), self.scroll_spec(), n),
            decreases height - y,
        {
            if y >= height || y >= offset_line_count {
                break;
            }
            self.draw_line(bitmap, frame, y);
            y = y + 1;
        }
        let ghost g1 = bitmap.glyphs_spec();
        loop
            invariant
                n <= y <= height,
                width == frame.width,
                width > 0 || n == height,
                height == frame.height,
                bitmap.wf(),
                same_but_glyphs(*bitmap, *old(bitmap)),
                frame.x + frame.width <= bitmap.size_spec().width,
                frame.y + frame.height <= bitmap.size_spec().height,
                w == old(bitmap).size_spec().width,
                bitmap.glyphs_spec() == tildes_drawn(g1, frame, w, n, y as int),
            ensures
                bitmap.wf(),
                same_but_glyphs(*bitmap, *old(bitmap)),
                bitmap.glyphs_spec() == tildes_drawn(g1, frame, w, n, height as int),
            decreases height - y,
        {
            if y >= height {
                break;
            }
            let ghost prev = bitmap.glyphs_spec();
            draw_glyph(bitmap, frame, Pos { x: 0, y }, Glyph::from_char('~'));
            y = y + 1;
        }
    }

    /// Scrolls so that the cursor (its row, and its screen column) shows in
    /// a window of `size`.
    pub fn scroll(&mut self, size: Size)
        requires
            old(self).scroll_spec().y + size.height <= usize::MAX,
            old(self).scroll_spec().x + size.width <= usize::MAX,
            old(self).cursor_spec().y < usize::MAX,
            old(self).render_x_spec() < usize::MAX,
        ensures
            final(self).scroll_spec() == (Pos {
                x: scroll_axis(
                    old(self).render_x_spec() as int,
                    old(self).scroll_spec().x as int,
                    size.width as int,
                ) as usize,
                y: scroll_axis(
                    old(self).cursor_spec().y as int,
                    old(self).scroll_spec().y as int,
                    size.height as int,
                ) as usize,
            }),
            final(self).key_spec() == old(self).key_spec(),
            final(self).cursor_spec() == old(self).cursor_spec(),
            final(self).sel_spec() == old(self).sel_spec(),
            final(self).render_x_spec() == old(self).render_x_spec(),
            final(self).doc_spec() == old(self).doc_spec(),
            final(self).mode_spec() == old(self).mode_spec(),
            *final(self) == old(self).with_scroll(old(self).scroll_target(size)),
    {
        if self.cursor.y < self.scroll_offset.y {
            self.scroll_offset.y = self.cursor.y;
        }
        if self.cursor.y >= self.scroll_offset.y + size.height {
            self.scroll_offset.y = self.cursor.y - size.height + 1;
        }
        if self.render_cursor_x < self.scroll_offset.x {
            self.scroll_offset.x = self.render_cursor_x;
        }
        if self.render_cursor_x >= self.scroll_offset.x + size.width {
            self.scroll_offset.x = self.render_cursor_x - size.width + 1;
        }
    }

    /// Where the cursor shows in the view: its screen column and row less the
    /// scroll offset.
    pub fn get_cursor_pos(&self) -> (p: Option<Pos>)
        requires
            self.scroll_spec().x <= self.render_x_spec(),
            self.scroll_spec().y <= self.cursor_spec().y,
        ensures
            p == Some(Pos {
                x: (self.render_x_spec() - self.scroll_spec().x) as usize,
                y: (self.cursor_spec().y - self.scroll_spec().y) as usize,
            }),
    {
        Some(Pos { x: self.render_cursor_x - self.scroll_offset.x, y: self.cursor.y - self.scroll_offset.y })
    }
}

/// Reads `[noun, rel]` or `[noun, rel, count]` (the count defaulting to
/// one).
pub fn pull_noun_rel_count(args: &Vec<Variant>) -> (r: Result<(Noun, Rel, i64), Error>)
    ensures
        match noun_rel_count(args@) {
            Ok(t) => r == Ok::<(Noun, Rel, i64), Error>(t),
            Err(m) => r matches Err(e) && e is General && e.message_view() == m,
        },
{
    let n = args.len();
    let (noun, rel, count): (&String, &String, i64) = if n == 3 {
        match (&args[0], &args[1], &args[2]) {
            (Variant::String(a), Variant::String(b), Variant::Int(c)) => (a, b, *c),
            _ => {
                return Err(error_msg("'delete-rel' expects a pair (noun, rel)"));
            },
        }
    } else if n == 2 {
        match (&args[0], &args[1]) {
            (Variant::String(a), Variant::String(b)) => (a, b, 1),
            _ => {
                return Err(error_msg("'delete-rel' expects a pair (noun, rel)"));
            },
        }
    } else {
        return Err(error_msg("'delete-rel' expects a pair (noun, rel)"));
    };
    proof {
        reveal_strlit("char");
        reveal_strlit("word");
        reveal_strlit("line");
        reveal_strlit("prior");
        reveal_strlit("begin");
        reveal_strlit("end");
        reveal_strlit("next");
    }
    match (Noun::from_str(noun.as_str()), Rel::from_str(rel.as_str())) {
        (Ok(noun), Ok(rel)) => Ok((noun, rel, count)),
        _ => Err(error_msg("'move-rel' expects a pair (noun, rel)")),
    }
}

/// `c` moved by `d`, kept within `0..=isize::MAX`.
fn rel_move(c: Coord, d: RelCoord) -> (r: Coord)
    requires
        c <= isize::MAX,
        c + d <= isize::MAX,
    ensures
        r == rel_coord(c as int, d as int),
{
    let v = c as isize + d;
    if v < 0 {
        0
    } else {
        v as usize
    }
}

} // verus!

verus! {

impl DocView {
    /// Whether the view can be drawn into `frame` (see `display_ok`).
    pub fn display_is_ok(&self, frame: Rect) -> (b: bool)
        ensures
            b == display_ok(*self, frame),
    {
        if frame.height > usize::MAX - self.scroll_offset.y {
            return false;
        }
        let count = self.doc.line_count();
        let left = if self.scroll_offset.y >= count {
            count
        } else {
            count - self.scroll_offset.y
        };
        let n = if frame.height < left {
            frame.height
        } else {
            left
        };
        assert(n == shown_lines(self.rows(), self.scroll_spec(), frame.height as int));
        let mut y: usize = 0;
        while y < n
            invariant
                y <= n,
                n == shown_lines(self.rows(), self.scroll_spec(), frame.height as int),
                frame.height + self.scroll_spec().y <= usize::MAX,
                forall|j: int| 0 <= j < y ==> line_start_ok(self.rows(), #[trigger] line_start(self.scroll_spec(), j), frame.width as int),
            decreases n - y,
        {
            let ry = self.scroll_offset.y + y;
            if self.scroll_offset.x > usize::MAX - frame.width {
                assert(!line_start_ok(self.rows(), line_start(self.scroll_spec(), y as int), frame.width as int));
                return false;
            }
            match self.doc.get_row(ry) {
                Some(row) => {
                    if self.scroll_offset.x > row.len() {
                        assert(!line_start_ok(self.rows(), line_start(self.scroll_spec(), y as int), frame.width as int));
                        return false;
                    }
                },
                None => {},
            }
            assert(line_start_ok(self.rows(), line_start(self.scroll_spec(), y as int), frame.width as int));
            y = y + 1;
        }
        match self.sel {
            Some(sel) => {
                if sel.start.x == usize::MAX {
                    return false;
                }
            },
            None => {},
        }
        frame.width > 0 || n == frame.height
    }

    /// Whether the view can be laid out in a window of `size` (see
    /// `layout_ok`).
    pub fn layout_is_ok(&self, size: Size) -> (b: bool)
        ensures
            b == ({
                &&& self.scroll_spec().y + size.height <= usize::MAX
                &&& self.scroll_spec().x + size.width <= usize::MAX
                &&& self.cursor_spec().y < usize::MAX
                &&& self.render_x_spec() < usize::MAX
            }),
    {
        size.height <= usize::MAX - self.scroll_offset.y && size.width <= usize::MAX - self.scroll_offset.x
            && self.cursor.y < usize::MAX && self.render_cursor_x < usize::MAX
    }

    /// Whether the view is scrolled so that its cursor shows.
    pub fn cursor_is_shown(&self) -> (b: bool)
        ensures
            b == (self.scroll_spec().x <= self.render_x_spec() && self.scroll_spec().y <= self.cursor_spec().y),
    {
        self.scroll_offset.x <= self.render_cursor_x && self.scroll_offset.y <= self.cursor.y
    }

    /// Whether the cursor leaves room for one more column and row.
    pub fn cursor_has_room(&self) -> (b: bool)
        ensures
            b == (self.cursor_spec().x < usize::MAX && self.cursor_spec().y < usize::MAX),
    {
        self.cursor.x < usize::MAX && self.cursor.y < usize::MAX
    }
}

} // verus!

verus! {

/// Undo after an edit: when a view is edited and then told to undo, its
/// text is what it was before the edit, and the cursor goes back to where
/// it stood before the edit (clamped to the text in the mode of the view).
pub proof fn law_undo_edit(
    v0: DocView,
    v1: DocView,
    v2: DocView,
    s: int,
    e: int,
    lines: Seq<Seq<char>>,
    pos: Pos,
    r: Result<Status, Error>,
)
    requires
        v0.wf(),
        0 <= s <= e <= v0.rows().len(),
        edited(v0, v1, s, e, lines, pos),
        history_effect(v1, v2, false, r),
    ensures
        r matches Ok(Status::Success),
        rows_view(v2.rows()) == rows_view(v0.rows()),
        v2.cursor_spec() == clamp_pos(v2.rows(), v0.mode_spec(), v0.cursor_spec()),
        v2.mode_spec() == v0.mode_spec(),
{
    let rows0 = v0.rows();
    let rows1 = v1.rows();
    let n = lines.len() as int;
    let (cs, i) = v1.doc_spec().history();
    let h0 = v0.doc_spec().history();
    assert(i == h0.1 + 1);
    assert(i > 0);
    let c = cs[i - 1];
    assert(c == (seq![(s, s + n, rows0.subrange(s, e))], pos, v0.cursor_spec()));
    let m = c.0[0];
    assert(c.0 =~= seq![m]);
    assert(rows_view(rows1).len() == rows1.len());
    assert(rows1.len() == s + n + (rows0.len() - e));
    assert(c.0.drop_last() =~= Seq::<OpModel>::empty());
    let back = apply_op(rows1, m).0;
    assert(exec_change(rows1, c).0 == back) by {
        assert(apply_ops(rows1, c.0.drop_last()) == (rows1, Seq::<OpModel>::empty()));
    }
    assert(rows_view(back) =~= rows_view(rows0)) by {
        assert(back == rows1.take(s) + rows0.subrange(s, e) + rows1.skip(s + n));
        assert forall|k: int| 0 <= k < rows0.len() implies #[trigger] rows_view(back)[k] == rows_view(rows0)[k] by {
            if k < s {
                assert(rows_view(rows1)[k] == rows_view(rows0)[k]);
            } else if k < e {
            } else {
                assert(rows_view(rows1)[k - e + s + n] == rows_view(rows0)[k]);
            }
        }
    }
}

} // verus!
