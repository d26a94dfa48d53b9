use vstd::prelude::*;
use crate::view::ViewKey;

verus! {

/// Hands out view keys 0, 1, 2, ... in turn.
pub struct ViewKeyGenerator {
    next: usize,
}

impl ViewKeyGenerator {
    /// The number of the next key.
    pub closed spec fn next_spec(&self) -> usize {
        self.next
    }

    pub fn new() -> (g: Self)
        ensures
            g.next_spec() == 0,
    {
        ViewKeyGenerator { next: 0 }
    }

    /// The next key; every key is handed out once.
    pub fn next_key(&mut self) -> (k: ViewKey)
        requires
            old(self).next_spec() < usize::MAX,
        ensures
            k == ViewKey(old(self).next_spec()),
            final(self).next_spec() == old(self).next_spec() + 1,
    {
        let k = ViewKey(self.next);
        self.next = self.next + 1;
        k
    }
}

} // verus!
