use vstd::prelude::*;
use crate::dk::DK;
use crate::message::Message;
use crate::target::Target;
use crate::variant::Variant;
use crate::view::ViewKey;

verus! {

/// Builds a command: a name and its arguments.
pub struct CommandBuilder {
    pub name: String,
    pub args: Vec<Variant>,
}

/// A command named `name`, with no arguments yet.
pub fn command(name: &str) -> (c: CommandBuilder)
    ensures
        c.name@ == name@,
        c.args@ == Seq::<Variant>::empty(),
{
    CommandBuilder { name: String::from_str(name), args: Vec::new() }
}

/// The message that a finished command delivers.
pub open spec fn command_dk(c: CommandBuilder, target: Target) -> DK {
    DK::Dispatch(target, Message::Command { name: c.name, args: c.args })
}

impl CommandBuilder {
    /// Adds an argument.
    pub fn arg(self, t: Variant) -> (c: Self)
        ensures
            c.name == self.name,
            c.args@ == self.args@.push(t),
    {
        let mut s = self;
        s.args.push(t);
        s
    }

    /// Sends the command to `target`.
    pub fn at_target(self, target: Target) -> (dk: DK)
        ensures
            dk == command_dk(self, target),
    {
        DK::Dispatch(target, Message::Command { name: self.name, args: self.args })
    }

    /// Sends the command to the view `view_key`.
    pub fn at_view(self, view_key: ViewKey) -> (dk: DK)
        ensures
            dk == command_dk(self, Target::View(view_key)),
    {
        self.at_target(Target::View(view_key))
    }

    /// Sends the command to the root view.
    pub fn at_root(self) -> (dk: DK)
        ensures
            dk == command_dk(self, Target::Root),
    {
        self.at_target(Target::Root)
    }

    /// Sends the command to the view map.
    pub fn at_view_map(self) -> (dk: DK)
        ensures
            dk == command_dk(self, Target::ViewMap),
    {
        self.at_target(Target::ViewMap)
    }

    /// Sends the command to the focused view.
    pub fn at_focused(self) -> (dk: DK)
        ensures
            dk == command_dk(self, Target::Focused),
    {
        self.at_target(Target::Focused)
    }
}

} // verus!
