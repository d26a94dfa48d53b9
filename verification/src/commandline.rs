use vstd::prelude::*;
use crate::bindings::{bound_keys, Bindings};
use crate::bitmap::{
    draw_chars, draw_run, fmt_kept, fmt_truncated, frame_cell, paint_bg, run_length, same_but_glyphs, with_bg, Bitmap,
    BitmapView,
};
use crate::color::Color;
use crate::command::command;
use crate::dk::DK;
use crate::error::Error;
use crate::format::Format;
use crate::glyph::Glyph;
use crate::key::Key;
use crate::plugin::PluginRef;
use crate::status::Status;
use crate::target::Target;
use crate::text::{push_char, push_str, str_eq, str_to_chars, chars_to_string};
use crate::types::{Coord, Pos, Rect, Size};
use crate::variant::{push_variants_debug, variants_debug, Variant};
use crate::text::{debug_str, debug_text};
use crate::view::ViewKey;
use crate::docview::sends;
use crate::message::Message;

verus! {

/// The background of the status bar.
pub open spec fn bar_bg() -> Color {
    Color::Rgb { r: 10, g: 15, b: 40 }
}

/// `gs` with the background of the first `n` cells of row `y` of `frame`
/// set to `bg`.
pub open spec fn bg_painted(gs: Seq<Glyph>, frame: Rect, w: int, y: int, n: int, bg: Color) -> Seq<Glyph>
    decreases n,
{
    if n <= 0 {
        gs
    } else {
        let prev = bg_painted(gs, frame, w, y, n - 1, bg);
        let i = frame_cell(frame, w, Pos { x: (n - 1) as usize, y: y as usize });
        prev.update(i, with_bg(prev[i], bg))
    }
}

/// `gs` with `chs` drawn in `f` on row `y` of `frame` from column `x`, as
/// far as the frame reaches.
pub open spec fn run_at(gs: Seq<Glyph>, frame: Rect, w: int, x: int, y: int, chs: Seq<char>, f: Format) -> Seq<Glyph> {
    draw_run(gs, frame_cell(frame, w, Pos { x: x as usize, y: y as usize }), chs, run_length(x, frame.width as int, chs.len() as int), f)
}

/// The column after drawing `n` characters from column `x` in `frame`.
pub open spec fn after_run(frame: Rect, x: int, n: int) -> int {
    x + run_length(x, frame.width as int, n)
}

/// `gs` with `t` drawn in the default colors so that it ends at the right
/// edge of row 0, where it fits between column `x` and that edge.
pub open spec fn ended_with(gs: Seq<Glyph>, frame: Rect, w: int, x: int, t: Seq<char>) -> Seq<Glyph> {
    if x < frame.width && t.len() <= frame.width - x {
        run_at(gs, frame, w, frame.width - t.len(), 0, t, Format { fg: Color::NoColor, bg: Color::NoColor })
    } else {
        gs
    }
}

/// What the two rows of the command line show, drawn over `gs`: on the
/// first, on the status bar's background, the file name in red and whether
/// it changed, then a live status message, and the status text at the right
/// edge; on the second, when the command line has the focus, `:` and the
/// text typed. The file name, the message and the typed line each pass
/// through the formatting buffer, which keeps what fits (see `fmt_kept`).
pub open spec fn command_line_drawn(
    gs: Seq<Glyph>,
    frame: Rect,
    w: int,
    is_dirty: bool,
    filename: Option<Seq<char>>,
    message: Option<Seq<char>>,
    status_text: Option<Seq<char>>,
    text: Option<Seq<char>>,
) -> Seq<Glyph> {
    let g1 = bg_painted(gs, frame, w, 0, frame.width as int, bar_bg());
    let (g3, x2) = match filename {
        Some(f) => {
            let fk = fmt_kept(f);
            let g2 = run_at(g1, frame, w, 1, 0, fk, Format { fg: Color::Red, bg: Color::NoColor });
            let x1 = after_run(frame, 1, fk.len() as int) + 1;
            let m = "| "@ + if is_dirty {
                "(modified) "@
            } else {
                ""@
            };
            (run_at(g2, frame, w, x1, 0, m, Format { fg: Color::White, bg: Color::NoColor }), after_run(frame, x1, m.len() as int))
        },
        None => (g1, 1),
    };
    let (g4, x3) = match message {
        Some(m) => {
            let t = fmt_kept(" "@ + m);
            (run_at(g3, frame, w, x2, 0, t, Format { fg: Color::NoColor, bg: Color::NoColor }), after_run(frame, x2, t.len() as int))
        },
        None => (g3, x2),
    };
    let g5 = match status_text {
        Some(t) => ended_with(g4, frame, w, x3, t),
        None => g4,
    };
    match text {
        Some(t) => run_at(g5, frame, w, 0, 1, fmt_kept(":"@ + t), Format { fg: Color::NoColor, bg: Color::NoColor }),
        None => g5,
    }
}

/// The characters of a string, where there is one.
pub open spec fn opt_view(o: Option<&str>) -> Option<Seq<char>> {
    match o {
        Some(s) => Some(s@),
        None => None,
    }
}

/// `send_key(key)` can run on the command line: it takes characters and
/// `Backspace`, and one more character needs one more column.
pub open spec fn line_key_safe(c: CommandLine, key: Key) -> bool {
    &&& key is Utf8 || key is Backspace
    &&& key is Utf8 ==> c.cursor_spec() < usize::MAX
}

/// What `send_key(key)` does to the command line and returns.
pub open spec fn line_key_effect(old: CommandLine, new: CommandLine, key: Key, r: Result<Status, Error>) -> bool {
    &&& r matches Ok(Status::Success)
    &&& new.wf()
    &&& new.view_key_spec() == old.view_key_spec()
    &&& new.scroll_spec() == old.scroll_spec()
    &&& new.status_spec() == old.status_spec()
    &&& match key {
        Key::Utf8(ch) => {
            &&& new.text_spec() == old.text_spec().push(ch)
            &&& new.cursor_spec() == old.cursor_spec() + 1
        },
        _ => if old.text_spec().len() > 0 {
            &&& new.text_spec() == old.text_spec().drop_last()
            &&& new.cursor_spec() == old.cursor_spec() - 1
        } else {
            &&& new.text_spec() == old.text_spec()
            &&& new.cursor_spec() == old.cursor_spec()
        },
    }
}

/// Typing a character and then erasing it with `Backspace` gives back the
/// text and the cursor as they were.
pub proof fn law_type_then_erase(
    c0: CommandLine,
    c1: CommandLine,
    c2: CommandLine,
    ch: char,
    r1: Result<Status, Error>,
    r2: Result<Status, Error>,
)
    requires
        line_key_effect(c0, c1, Key::Utf8(ch), r1),
        line_key_effect(c1, c2, Key::Backspace, r2),
    ensures
        r1 matches Ok(Status::Success),
        r2 matches Ok(Status::Success),
        c2.text_spec() == c0.text_spec(),
        c2.cursor_spec() == c0.cursor_spec(),
{
    assert(c0.text_spec().push(ch).drop_last() =~= c0.text_spec());
}

/// `Backspace` on an empty line succeeds and changes nothing.
pub proof fn law_erase_empty(c0: CommandLine, c1: CommandLine, r: Result<Status, Error>)
    requires
        c0.text_spec().len() == 0,
        line_key_effect(c0, c1, Key::Backspace, r),
    ensures
        r matches Ok(Status::Success),
        c1.text_spec() == c0.text_spec(),
        c1.cursor_spec() == c0.cursor_spec(),
{
}

/// What `execute_command(name, ..)` does to the command line and returns.
pub open spec fn line_command_effect(
    old: CommandLine,
    new: CommandLine,
    name: Seq<char>,
    args: Seq<Variant>,
    r: Result<Status, Error>,
) -> bool {
    &&& new.wf()
    &&& new.view_key_spec() == old.view_key_spec()
    &&& new.cursor_spec() == old.cursor_spec()
    &&& new.scroll_spec() == old.scroll_spec()
    &&& new.status_spec() == old.status_spec()
    &&& name == "clear-text"@ ==> (r matches Ok(Status::Success) && new.text_spec().len() == 0)
    &&& name != "clear-text"@ ==> {
        &&& r matches Err(e) && e is NotImplemented && e.message_view() == "CommandLine::execute_command does not impl "@
            + debug_text(name) + " "@ + variants_debug(args)
        &&& new.text_spec() == old.text_spec()
    }
}

/// The line where commands are typed, under a status bar.
pub struct CommandLine {
    plugin: PluginRef,
    view_key: ViewKey,
    cursor: Coord,
    render_cursor: Coord,
    scroll_offset: Coord,
    text: String,
    status: Status,
}

/// What the command line's two bindings produce: `Esc` gives the focus
/// back; `Enter` clears the line, gives the focus back and has the focused
/// view run the line's text.
pub open spec fn command_line_bound(es: Seq<(Vec<Key>, DK)>, c: CommandLine) -> bool {
    &&& es.len() >= 2
    &&& es[0].1 matches DK::Dispatch(Target::View(vk), Message::Command { name, args }) && vk == c.view_key_spec()
        && name@ == "focus"@ && args@ == seq![Variant::Target(Target::Previous)]
    &&& es[1].1 matches DK::Sequence(steps) && steps@.len() == 3 && sends(
        steps@[0],
        Target::View(c.view_key_spec()),
        "clear-text"@,
        seq![],
    ) && (steps@[1] matches DK::Dispatch(Target::ViewMap, Message::Command { name, args }) && name@ == "focus"@
        && args@ == seq![Variant::Target(Target::Previous)]) && sends(steps@[2], Target::Focused, "invoke-execute"@, seq![c.text_spec()])
}

impl CommandLine {
    pub closed spec fn view_key_spec(&self) -> ViewKey {
        self.view_key
    }

    pub closed spec fn cursor_spec(&self) -> Coord {
        self.cursor
    }

    pub closed spec fn scroll_spec(&self) -> Coord {
        self.scroll_offset
    }

    pub closed spec fn text_spec(&self) -> Seq<char> {
        self.text@
    }

    pub closed spec fn status_spec(&self) -> Status {
        self.status
    }

    /// The cursor counts at least the typed characters, and the line never
    /// scrolls.
    pub open spec fn wf(&self) -> bool {
        &&& self.text_spec().len() <= self.cursor_spec()
        &&& self.scroll_spec() == 0
    }

    pub fn new(plugin: PluginRef, view_key: ViewKey) -> (c: Self)
        ensures
            c.wf(),
            c.view_key_spec() == view_key,
            c.cursor_spec() == 0,
            c.text_spec().len() == 0,
            c.status_spec() is Success,
    {
        CommandLine {
            plugin,
            view_key,
            cursor: 0,
            render_cursor: 0,
            scroll_offset: 0,
            text: String::new(),
            status: Status::Success,
        }
    }

    /// The command line has no child views.
    pub fn layout(&self, _size: Size) -> (children: Vec<(ViewKey, Rect)>)
        ensures
            children@.len() == 0,
    {
        Vec::new()
    }

    pub fn get_view_key(&self) -> (k: ViewKey)
        ensures
            k == self.view_key_spec(),
    {
        self.view_key
    }

    /// Where the cursor shows: on the second row, after the `:` and the
    /// characters before the cursor.
    pub fn get_cursor_pos(&self) -> (p: Option<Pos>)
        requires
            self.wf(),
            self.cursor_spec() < usize::MAX,
        ensures
            p == Some(Pos { x: (1 + self.cursor_spec() - self.scroll_spec()) as usize, y: 1 }),
    {
        Some(Pos { x: 1 + self.cursor - self.scroll_offset, y: 1 })
    }

    /// Shows `status` in the status bar.
    /// Whether the cursor leaves room for one more column.
    pub fn cursor_has_room(&self) -> (b: bool)
        ensures
            b == (self.cursor_spec() < usize::MAX),
    {
        self.cursor < usize::MAX
    }

    pub fn set_status(&mut self, status: Status)
        ensures
            final(self).status_spec() == status,
            final(self).view_key_spec() == old(self).view_key_spec(),
            final(self).cursor_spec() == old(self).cursor_spec(),
            final(self).scroll_spec() == old(self).scroll_spec(),
            final(self).text_spec() == old(self).text_spec(),
    {
        self.status = status;
    }

    /// The bindings of the command line: `Esc` gives the focus back; `Enter`
    /// clears the line, gives the focus back and has the focused view
    /// execute the typed text.
    pub fn get_key_bindings(&self) -> (b: Bindings)
        ensures
            b.wf(),
            bound_keys(b.entries()) == seq![seq![Key::Esc], seq![Key::Enter]],
            command_line_bound(b.entries(), *self),
    {
        let vk = self.view_key;
        let mut bindings = Bindings::new();
        let mut esc: Vec<Key> = Vec::new();
        esc.push(Key::Esc);
        bindings.insert(esc, command("focus").arg(Variant::Target(Target::Previous)).at_view(vk));
        let mut enter: Vec<Key> = Vec::new();
        enter.push(Key::Enter);
        let mut steps: Vec<DK> = Vec::new();
        steps.push(command("clear-text").at_view(vk));
        steps.push(command("focus").arg(Variant::Target(Target::Previous)).at_view_map());
        steps.push(command("invoke-execute").arg(Variant::from_str(self.text.as_str())).at_focused());
        proof {
            assert(bound_keys(bindings.entries()) =~= seq![seq![Key::Esc]]);
            assert(seq![Key::Esc] != seq![Key::Enter]) by {
                assert(seq![Key::Esc][0] != seq![Key::Enter][0]);
            }
        }
        bindings.insert(enter, DK::Sequence(steps));
        assert(bound_keys(bindings.entries()) =~= seq![seq![Key::Esc], seq![Key::Enter]]);
        bindings
    }

    /// Whether `send_key(key)` can run on the command line (see
    /// `line_key_safe`).
    pub fn key_is_safe(&self, key: Key) -> (b: bool)
        ensures
            b == line_key_safe(*self, key),
    {
        match key {
            Key::Utf8(_) => self.cursor < usize::MAX,
            Key::Backspace => true,
            _ => false,
        }
    }

    /// Types a character, or erases the last one with `Backspace`.
    pub fn send_key(&mut self, key: Key) -> (r: Result<Status, Error>)
        requires
            old(self).wf(),
            line_key_safe(*old(self), key),
        ensures
            line_key_effect(*old(self), *final(self), key, r),
    {
        match key {
            Key::Utf8(ch) => {
                push_char(&mut self.text, ch);
                self.cursor = self.cursor + 1;
            },
            _ => {
                let chars = str_to_chars(self.text.as_str());
                if chars.len() > 0 {
                    let kept = chars_to_string(&chars.as_slice()[0..chars.len() - 1]);
                    self.text = kept;
                    self.cursor = self.cursor - 1;
                    assert(self.text@ =~= old(self).text@.drop_last());
                }
            },
        }
        Ok(Status::Success)
    }

    /// Runs a command: `clear-text` clears the typed text; nothing else is
    /// implemented.
    pub fn execute_command(&mut self, name: String, args: Vec<Variant>) -> (r: Result<Status, Error>)
        requires
            old(self).wf(),
        ensures
            line_command_effect(*old(self), *final(self), name@, args@, r),
    {
        if str_eq(name.as_str(), "clear-text") {
            self.text = String::new();
            Ok(Status::Success)
        } else {
            let mut m = String::new();
            push_str(&mut m, "CommandLine::execute_command does not impl ");
            let d = debug_str(name.as_str());
            push_str(&mut m, d.as_str());
            push_str(&mut m, " ");
            push_variants_debug(&mut m, &args);
            Err(Error::not_impl(m))
        }
    }

    /// The status message to show, where there is one and it is still
    /// `live`.
    pub open spec fn shown_message(&self, live: bool) -> Option<Seq<char>> {
        match self.status_spec() {
            Status::Message { message, .. } => if live {
                Some(message@)
            } else {
                None
            },
            _ => None,
        }
    }

    /// Draws the command line into `bmp`, a frame two rows high (see
    /// `command_line_drawn`): `focused` tells whether the command line has
    /// the focus, `is_dirty`, `filename` and `status_text` describe the
    /// focused view, and `message_live` whether the status message is still
    /// to be shown.
    pub fn display(
        &self,
        bmp: &mut BitmapView,
        focused: bool,
        is_dirty: bool,
        filename: Option<&str>,
        status_text: Option<&str>,
        message_live: bool,
    )
        requires
            old(bmp).fits(),
            old(bmp).frame.height == 2,
            old(bmp).frame.width + 2 <= usize::MAX,
        ensures
            final(bmp).fits(),
            final(bmp).frame == old(bmp).frame,
            *final(final(bmp).bitmap) == *final(old(bmp).bitmap),
            same_but_glyphs(*final(bmp).bitmap, *old(bmp).bitmap),
            final(bmp).bitmap.glyphs_spec() == command_line_drawn(
                old(bmp).bitmap.glyphs_spec(),
                old(bmp).frame,
                old(bmp).bitmap.size_spec().width as int,
                is_dirty,
                opt_view(filename),
                self.shown_message(message_live),
                opt_view(status_text),
                if focused {
                    Some(self.text_spec())
                } else {
                    None
                },
            ),
    {
        self.draw(bmp.bitmap, bmp.frame, focused, is_dirty, filename, status_text, message_live);
    }

    fn draw(
        &self,
        bitmap: &mut Bitmap,
        frame: Rect,
        focused: bool,
        is_dirty: bool,
        filename: Option<&str>,
        status_text: Option<&str>,
        message_live: bool,
    )
        requires
            old(bitmap).wf(),
            frame.x + frame.width <= old(bitmap).size_spec().width,
            frame.y + frame.height <= old(bitmap).size_spec().height,
            frame.height == 2,
            frame.width + 2 <= usize::MAX,
        ensures
            final(bitmap).wf(),
            same_but_glyphs(*final(bitmap), *old(bitmap)),
            final(bitmap).glyphs_spec() == command_line_drawn(
                old(bitmap).glyphs_spec(),
                frame,
                old(bitmap).size_spec().width as int,
                is_dirty,
                opt_view(filename),
                self.shown_message(message_live),
                opt_view(status_text),
                if focused {
                    Some(self.text_spec())
                } else {
                    None
                },
            ),
    {
        let ghost g0 = bitmap.glyphs_spec();
        let ghost w = bitmap.size_spec().width as int;
        let bg = Color::Rgb { r: 10, g: 15, b: 40 };
        let mut x: usize = 0;
        while x < frame.width
            invariant
                x <= frame.width,
                bitmap.wf(),
                same_but_glyphs(*bitmap, *old(bitmap)),
                frame.x + frame.width <= bitmap.size_spec().width,
                frame.y + frame.height <= bitmap.size_spec().height,
                frame.height == 2,
                bg == bar_bg(),
                w == old(bitmap).size_spec().width,
                bitmap.glyphs_spec() == bg_painted(g0, frame, w, 0, x as int, bar_bg()),
            decreases frame.width - x,
        {
            paint_bg(bitmap, frame, Pos { x, y: 0 }, bg);
            x = x + 1;
        }
        let mut pos_x: usize = 1;
        if let Some(f) = filename {
            let chs = fmt_truncated(str_to_chars(f));
            let n = draw_chars(bitmap, frame, Pos { x: pos_x, y: 0 }, chs.as_slice(), Format::from_fg(Color::Red));
            pos_x = pos_x + n + 1;
            let mut m = String::new();
            push_str(&mut m, "| ");
            if is_dirty {
                push_str(&mut m, "(modified) ");
            } else {
                proof {
                    reveal_strlit("");
                }
                assert(m@ =~= "| "@ + ""@);
            }
            let chs2 = str_to_chars(m.as_str());
            let n2 = draw_chars(bitmap, frame, Pos { x: pos_x, y: 0 }, chs2.as_slice(), Format::from_fg(Color::White));
            pos_x = pos_x + n2;
        }
        if message_live {
            if let Status::Message { message, .. } = &self.status {
                let mut m = String::new();
                push_str(&mut m, " ");
                push_str(&mut m, message.as_str());
                let chs = fmt_truncated(str_to_chars(m.as_str()));
                let n = draw_chars(bitmap, frame, Pos { x: pos_x, y: 0 }, chs.as_slice(), Format::none());
                pos_x = pos_x + n;
            }
        }
        if let Some(t) = status_text {
            let chs = str_to_chars(t);
            let count = chs.len();
            if pos_x < frame.width && count <= frame.width - pos_x {
                let _n = draw_chars(bitmap, frame, Pos { x: frame.width - count, y: 0 }, chs.as_slice(), Format::none());
            }
        }
        if focused {
            let mut m = String::new();
            push_str(&mut m, ":");
            push_str(&mut m, self.text.as_str());
            let chs = fmt_truncated(str_to_chars(m.as_str()));
            let _n = draw_chars(bitmap, frame, Pos { x: 0, y: 1 }, chs.as_slice(), Format::none());
        }
    }

    /// The command line has no properties.
    pub fn get_property(&self, _property: &str) -> (v: Option<Variant>)
        ensures
            v is None,
    {
        None
    }
}

} // verus!
