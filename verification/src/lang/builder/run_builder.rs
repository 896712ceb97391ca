use vstd::prelude::*;

verus! {

/// Builds runs of commands.
pub struct RunBuilder {}

impl RunBuilder {
    pub fn new() -> (r: RunBuilder) {
        RunBuilder {}
    }

    /// The rank of the operators this builder takes: higher ranks are
    /// built first.
    pub fn presedence(&self) -> (r: u64)
        ensures
            r == 2,
    {
        2
    }

    pub fn identify(&self) -> (r: &str)
        ensures
            r == "Run Builder",
    {
        "Run Builder"
    }
}

} // verus!
