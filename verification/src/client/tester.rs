//! The tester that the test macro runs around each test.
use vstd::prelude::*;
use vstd::string::*;

verus! {

/// `Tester` is used primarily by the test macro; there should be no need to
/// use it directly.
pub struct Tester {
    root: String,
}

impl Tester {
    /// The root directory that the tester was given.
    pub closed spec fn root_spec(&self) -> Seq<char> {
        self.root@
    }
}

impl Default for Tester {
    fn default() -> (t: Self)
        ensures
            t.root_spec() == Seq::<char>::empty(),
    {
        Tester { root: String::new() }
    }
}

impl Tester {
    /// Runs before a test; the tester keeps no state of its own to prepare.
    pub fn before(&mut self)
        ensures
            final(self).root_spec() == old(self).root_spec(),
    {
    }

    /// Runs after a test; there is nothing to tear down.
    pub fn after(&self) {
    }
}

} // verus!
