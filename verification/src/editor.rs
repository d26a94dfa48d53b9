use vstd::prelude::*;
use crate::bindings::Bindings;
use crate::consts::PROP_EDITOR_SHOULD_QUIT;
use crate::key::Key;
use crate::plugin::PluginRef;
use crate::types::{Pos, Rect, Size};
use crate::variant::Variant;
use crate::view::ViewKey;

verus! {

/// The editor: the root view, which shows a view above the command line.
pub struct Editor {
    plugin: PluginRef,
    should_quit: bool,
    last_key: Option<Key>,
    view_key: ViewKey,
    top_view_key: Option<ViewKey>,
    command_line_key: ViewKey,
    frame: Rect,
}

/// The top view over all but the last two rows, the command line on those
/// two.
pub open spec fn editor_children(e: Editor, size: Size) -> Seq<(ViewKey, Rect)> {
    (match e.top_view_key_spec() {
        Some(top) => seq![(top, Rect { x: 0, y: 0, width: size.width, height: (size.height - 2) as usize })],
        None => Seq::empty(),
    }) + seq![(e.command_line_key_spec(), Rect { x: 0, y: (size.height - 2) as usize, width: size.width, height: 2 })]
}

impl Editor {
    /// The plugin the editor holds.
    pub closed spec fn plugin_spec(&self) -> PluginRef {
        self.plugin
    }

    pub closed spec fn should_quit_spec(&self) -> bool {
        self.should_quit
    }

    pub closed spec fn last_key_spec(&self) -> Option<Key> {
        self.last_key
    }

    pub closed spec fn view_key_spec(&self) -> ViewKey {
        self.view_key
    }

    pub closed spec fn top_view_key_spec(&self) -> Option<ViewKey> {
        self.top_view_key
    }

    pub closed spec fn command_line_key_spec(&self) -> ViewKey {
        self.command_line_key
    }

    pub closed spec fn frame_spec(&self) -> Rect {
        self.frame
    }

    /// The editor laid out in `frame`, all else kept.
    pub closed spec fn with_frame(self, frame: Rect) -> Editor {
        Editor { frame, ..self }
    }

    /// An editor that shows `top_view_key` above the command line
    /// `command_line_key`, laid out in no space yet.
    pub fn new(plugin: PluginRef, view_key: ViewKey, top_view_key: Option<ViewKey>, command_line_key: ViewKey) -> (e: Self)
        ensures
            !e.should_quit_spec(),
            e.last_key_spec() is None,
            e.view_key_spec() == view_key,
            e.top_view_key_spec() == top_view_key,
            e.command_line_key_spec() == command_line_key,
            e.frame_spec() == (Rect { x: 0, y: 0, width: 0, height: 0 }),
    {
        Editor {
            plugin,
            should_quit: false,
            last_key: None,
            view_key,
            top_view_key,
            command_line_key,
            frame: Rect::zero(),
        }
    }

    /// Replaces the plugin the editor holds; nothing else changes.
    pub fn install_plugins(&mut self, plugin: PluginRef)
        ensures
            final(self).plugin_spec() == plugin,
            final(self).should_quit_spec() == old(self).should_quit_spec(),
            final(self).last_key_spec() == old(self).last_key_spec(),
            final(self).view_key_spec() == old(self).view_key_spec(),
            final(self).top_view_key_spec() == old(self).top_view_key_spec(),
            final(self).command_line_key_spec() == old(self).command_line_key_spec(),
            final(self).frame_spec() == old(self).frame_spec(),
    {
        self.plugin = plugin;
    }

    pub fn get_should_quit(&self) -> (b: bool)
        ensures
            b == self.should_quit_spec(),
    {
        self.should_quit
    }

    pub fn get_view_key(&self) -> (k: ViewKey)
        ensures
            k == self.view_key_spec(),
    {
        self.view_key
    }

    pub fn get_command_line_key(&self) -> (k: ViewKey)
        ensures
            k == self.command_line_key_spec(),
    {
        self.command_line_key
    }

    pub fn set_top_view_key(&mut self, top_view_key: Option<ViewKey>)
        ensures
            final(self).top_view_key_spec() == top_view_key,
            final(self).should_quit_spec() == old(self).should_quit_spec(),
            final(self).last_key_spec() == old(self).last_key_spec(),
            final(self).view_key_spec() == old(self).view_key_spec(),
            final(self).command_line_key_spec() == old(self).command_line_key_spec(),
            final(self).frame_spec() == old(self).frame_spec(),
    {
        self.top_view_key = top_view_key;
    }

    pub fn set_last_key(&mut self, key: Option<Key>)
        ensures
            final(self).last_key_spec() == key,
            final(self).should_quit_spec() == old(self).should_quit_spec(),
            final(self).view_key_spec() == old(self).view_key_spec(),
            final(self).top_view_key_spec() == old(self).top_view_key_spec(),
            final(self).command_line_key_spec() == old(self).command_line_key_spec(),
            final(self).frame_spec() == old(self).frame_spec(),
    {
        self.last_key = key;
    }

    /// Lays the editor out in a window of `size`: the top view takes all
    /// but the last two rows, the command line those two.
    pub fn layout(&mut self, size: Size) -> (children: Vec<(ViewKey, Rect)>)
        requires
            size.height >= 2,
        ensures
            final(self).frame_spec() == (Rect { x: 0, y: 0, width: size.width, height: size.height }),
            final(self).should_quit_spec() == old(self).should_quit_spec(),
            final(self).last_key_spec() == old(self).last_key_spec(),
            final(self).view_key_spec() == old(self).view_key_spec(),
            final(self).top_view_key_spec() == old(self).top_view_key_spec(),
            final(self).command_line_key_spec() == old(self).command_line_key_spec(),
            children@ == editor_children(*old(self), size),
            *final(self) == old(self).with_frame(Rect { x: 0, y: 0, width: size.width, height: size.height }),
    {
        self.frame = Rect::from_size(size);
        self.layout_children(size)
    }

    /// The rectangles that `layout` gives the top view and the command line.
    pub fn layout_children(&self, size: Size) -> (children: Vec<(ViewKey, Rect)>)
        requires
            size.height >= 2,
        ensures
            children@ == editor_children(*self, size),
    {
        let mut ret: Vec<(ViewKey, Rect)> = Vec::new();
        if let Some(top_view_key) = self.top_view_key {
            ret.push((top_view_key, Rect { x: 0, y: 0, width: size.width, height: size.height - 2 }));
        }
        ret.push((self.command_line_key, Rect { x: 0, y: size.height - 2, width: size.width, height: 2 }));
        proof {
            match self.top_view_key_spec() {
                Some(top) => {
                    assert(ret@ =~= seq![(top, Rect { x: 0, y: 0, width: size.width, height: (size.height - 2) as usize })]
                        + seq![(self.command_line_key, Rect { x: 0, y: (size.height - 2) as usize, width: size.width, height: 2 })]);
                },
                None => {
                    assert(ret@ =~= Seq::<(ViewKey, Rect)>::empty() + seq![(
                        self.command_line_key,
                        Rect { x: 0, y: (size.height - 2) as usize, width: size.width, height: 2 },
                    )]);
                },
            }
        }
        ret
    }

    /// The editor has been laid out in at least one cell.
    pub fn frame_is_nonempty(&self) -> (b: bool)
        ensures
            b == (self.frame_spec().width >= 1 && self.frame_spec().height >= 1),
    {
        self.frame.width >= 1 && self.frame.height >= 1
    }

    /// Where the terminal's cursor goes: where the focused view shows its
    /// cursor, else the bottom-right corner of the editor.
    pub fn cursor_position(&self, focused_cursor: Option<Pos>) -> (p: Pos)
        requires
            focused_cursor is None ==> self.frame_spec().width >= 1 && self.frame_spec().height >= 1,
        ensures
            p == match focused_cursor {
                Some(c) => c,
                None => Pos {
                    x: (self.frame_spec().width - 1) as usize,
                    y: (self.frame_spec().height - 1) as usize,
                },
            },
    {
        match focused_cursor {
            Some(c) => c,
            None => Pos { x: self.frame.width - 1, y: self.frame.height - 1 },
        }
    }

    /// The editor has no key bindings of its own.
    pub fn get_key_bindings(&self) -> (b: Bindings)
        ensures
            b.wf(),
            b.entries().len() == 0,
    {
        Bindings::new()
    }

    /// The editor's one property: whether it should quit.
    pub fn get_property(&self, property: &str) -> (v: Option<Variant>)
        requires
            property@ == PROP_EDITOR_SHOULD_QUIT@,
        ensures
            v == Some(Variant::Bool(self.should_quit_spec())),
    {
        Some(Variant::Bool(self.should_quit))
    }
}

} // verus!
