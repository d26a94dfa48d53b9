use vstd::prelude::*;
use std::rc::Rc;

verus! {

/// The extension point that views hold on to; it carries no state yet.
#[derive(Debug)]
pub struct Plugin {}

/// A plugin shared by every view.
pub type PluginRef = Rc<Plugin>;

impl Plugin {
    pub fn new() -> (p: PluginRef) {
        Rc::new(Plugin {})
    }
}

} // verus!
