//! The command line: the fuzz subcommands and the options of a test run.
use crate::client::commander::RunTestOptions;
use vstd::prelude::*;

verus! {

/// The subcommands of `fuzz`.
pub enum FuzzCommand {
    /// Run fuzz tests
    Run { test_name: String },
    /// Generate fuzz tests
    New { test_name: String },
}

/// The options of `test`: the project's root and how the tests are run.
pub struct TestOptions {
    root: String,
    options: RunTestOptions,
}

impl TestOptions {
    /// The project's root.
    pub closed spec fn root_spec(&self) -> String {
        self.root
    }

    /// How the tests are run.
    pub closed spec fn options_spec(&self) -> RunTestOptions {
        self.options
    }

    pub fn new(root: String, options: RunTestOptions) -> (t: Self)
        ensures
            t.root_spec() == root,
            t.options_spec() == options,
    {
        Self { root, options }
    }

    /// The root and the run options.
    pub fn into_parts(self) -> (parts: (String, RunTestOptions))
        ensures
            parts == (self.root_spec(), self.options_spec()),
    {
        (self.root, self.options)
    }
}

} // verus!
