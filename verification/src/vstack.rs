use vstd::prelude::*;
use crate::bindings::Bindings;
use crate::error::Error;
use crate::plugin::PluginRef;
use crate::text::{debug_str, debug_text, push_str};
use crate::variant::{push_variants_debug, variants_debug, Variant};
use crate::types::{Rect, Size};
use crate::view::ViewKey;

verus! {

/// The rectangles that stack the views `keys[i..]` from row `used` down a
/// `width` by `height` window, each `expected` rows high, the last that
/// fits taking what is left; views that no longer fit get none.
pub open spec fn stack_rects(keys: Seq<ViewKey>, i: int, width: int, height: int, expected: int, used: int) -> Seq<(ViewKey, Rect)>
    decreases keys.len() - i,
{
    if i >= keys.len() || i < 0 {
        Seq::empty()
    } else if height - used < expected {
        stack_rects(keys, i + 1, width, height, expected, used)
    } else {
        let h = if used + expected * 2 > height {
            height - used
        } else {
            expected
        };
        seq![(keys[i], Rect { x: 0, y: used as usize, width: width as usize, height: h as usize })] + stack_rects(
            keys,
            i + 1,
            width,
            height,
            expected,
            used + h,
        )
    }
}

/// The height each stacked view gets: an equal share, at least one row.
pub open spec fn share(height: int, n: int) -> int {
    if height / n > 1 {
        height / n
    } else {
        1
    }
}

/// Views stacked one above the other.
pub struct VStack {
    plugin: PluginRef,
    view_key: ViewKey,
    view_keys: Vec<ViewKey>,
}

impl VStack {
    /// The plugin the stack holds.
    pub closed spec fn plugin_spec(&self) -> PluginRef {
        self.plugin
    }

    pub closed spec fn view_key_spec(&self) -> ViewKey {
        self.view_key
    }

    pub closed spec fn view_keys_spec(&self) -> Seq<ViewKey> {
        self.view_keys@
    }

    /// A stack of the views `view_keys`, top first.
    pub fn new(plugin: PluginRef, view_key: ViewKey, view_keys: Vec<ViewKey>) -> (v: Self)
        ensures
            v.view_key_spec() == view_key,
            v.view_keys_spec() == view_keys@,
    {
        VStack { plugin, view_key, view_keys }
    }

    /// Replaces the plugin the stack holds; nothing else changes.
    pub fn install_plugins(&mut self, plugin: PluginRef)
        ensures
            final(self).plugin_spec() == plugin,
            final(self).view_key_spec() == old(self).view_key_spec(),
            final(self).view_keys_spec() == old(self).view_keys_spec(),
    {
        self.plugin = plugin;
    }

    pub fn get_view_key(&self) -> (k: ViewKey)
        ensures
            k == self.view_key_spec(),
    {
        self.view_key
    }

    /// How many views are stacked.
    pub fn key_count(&self) -> (n: usize)
        ensures
            n == self.view_keys_spec().len(),
    {
        self.view_keys.len()
    }

    /// Stacks the views down a window of `size`: each gets an equal share of
    /// the rows (at least one), the last that fits takes what is left, and
    /// views that no longer fit are left out.
    pub fn layout(&mut self, size: Size) -> (children: Vec<(ViewKey, Rect)>)
        requires
            old(self).view_keys_spec().len() > 0,
            size.height + size.height <= usize::MAX,
        ensures
            children@ == stack_rects(
                old(self).view_keys_spec(),
                0,
                size.width as int,
                size.height as int,
                share(size.height as int, old(self).view_keys_spec().len() as int),
                0,
            ),
            *final(self) == *old(self),
    {
        self.layout_children(size)
    }

    /// The rectangles that `layout` gives the stacked views.
    pub fn layout_children(&self, size: Size) -> (children: Vec<(ViewKey, Rect)>)
        requires
            self.view_keys_spec().len() > 0,
            size.height + size.height <= usize::MAX,
        ensures
            children@ == stack_rects(
                self.view_keys_spec(),
                0,
                size.width as int,
                size.height as int,
                share(size.height as int, self.view_keys_spec().len() as int),
                0,
            ),
    {
        let n = self.view_keys.len();
        let q = size.height / n;
        let expected = if q > 1 {
            q
        } else {
            1
        };
        let ghost keys = self.view_keys@;
        let ghost whole = stack_rects(keys, 0, size.width as int, size.height as int, expected as int, 0);
        let mut used: usize = 0;
        let mut out: Vec<(ViewKey, Rect)> = Vec::new();
        let mut i: usize = 0;
        proof {
            assert(expected <= size.height || size.height == 0);
        }
        while i < n
            invariant
                i <= n,
                n == keys.len(),
                keys == self.view_keys@,
                used <= size.height,
                expected >= 1,
                expected <= size.height || size.height == 0,
                size.height + size.height <= usize::MAX,
                whole == stack_rects(keys, 0, size.width as int, size.height as int, expected as int, 0),
                out@ + stack_rects(keys, i as int, size.width as int, size.height as int, expected as int, used as int) == whole,
            decreases n - i,
        {
            let vk = self.view_keys[i];
            if size.height - used < expected {
                i = i + 1;
            } else {
                let view_height = if used + expected * 2 > size.height {
                    size.height - used
                } else {
                    expected
                };
                let ghost before = out@;
                out.push((vk, Rect { x: 0, y: used, width: size.width, height: view_height }));
                proof {
                    let rest = stack_rects(keys, i + 1, size.width as int, size.height as int, expected as int, used + view_height);
                    assert(out@ + rest =~= before + (seq![(vk, Rect { x: 0, y: used, width: size.width, height: view_height })] + rest));
                }
                used = used + view_height;
                i = i + 1;
            }
        }
        assert(out@ =~= whole);
        out
    }

    /// A stack has no key bindings of its own.
    pub fn get_key_bindings(&self) -> (b: Bindings)
        ensures
            b.wf(),
            b.entries().len() == 0,
    {
        Bindings::new()
    }

    /// A stack runs no commands.
    pub fn execute_command(&mut self, name: String, args: Vec<Variant>) -> (r: Result<crate::status::Status, Error>)
        ensures
            r matches Err(e) && e is General && e.message_view() == "Command "@ + debug_text(name@) + " "@ + variants_debug(args@)
                + " not implemented for VStack"@,
            final(self).view_key_spec() == old(self).view_key_spec(),
            final(self).view_keys_spec() == old(self).view_keys_spec(),
    {
        let mut m = String::new();
        push_str(&mut m, "Command ");
        let d = debug_str(name.as_str());
        push_str(&mut m, d.as_str());
        push_str(&mut m, " ");
        push_variants_debug(&mut m, &args);
        push_str(&mut m, " not implemented for VStack");
        Err(Error::new(m))
    }
}

} // verus!
