use vstd::prelude::*;

verus! {

/// Builds writes and appends.
pub struct IoBuilder {}

impl IoBuilder {
    pub fn new() -> (r: IoBuilder) {
        IoBuilder {}
    }

    /// The rank of the operators this builder takes: higher ranks are
    /// built first.
    pub fn presedence(&self) -> (r: u64)
        ensures
            r == 1,
    {
        1
    }

    pub fn identify(&self) -> (r: &str)
        ensures
            r == "Io Builder",
    {
        "Io Builder"
    }

    /// Whether the registers are cleared after this builder ran.
    pub fn do_clear(&self) -> (r: bool)
        ensures
            r == true,
    {
        true
    }
}

} // verus!
