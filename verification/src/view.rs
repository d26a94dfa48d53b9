use vstd::prelude::*;

verus! {

/// The key under which a view is registered.
#[derive(Clone, Copy, Debug, PartialEq, Eq, Structural, Hash)]
pub struct ViewKey(pub usize);

impl ViewKey {
    pub fn from_usize(u: usize) -> (k: Self)
        ensures
            k == ViewKey(u),
    {
        ViewKey(u)
    }
}

/// Something that can be shown as a view.
pub trait View: Sized {
    /// The key under which the view is registered.
    spec fn key_of(&self) -> ViewKey;

    fn get_view_key(&self) -> (k: ViewKey)
        ensures
            k == self.key_of(),
    ;

    /// The view, as a view of any kind.
    fn into_view_ref(self) -> (v: crate::view_map::ViewRef)
        ensures
            v.key_spec() == self.key_of(),
    ;
}

} // verus!
