use vstd::prelude::*;

verus! {

/// Builds conditionals.
pub struct IfBuilder {}

impl IfBuilder {
    pub fn new() -> (r: IfBuilder) {
        IfBuilder {}
    }

    /// The rank of the operators this builder takes: higher ranks are
    /// built first.
    pub fn presedence(&self) -> (r: u64)
        ensures
            r == 2,
    {
        2
    }

    pub fn identify(&self) -> (r: &str)
        ensures
            r == "If Builder",
    {
        "If Builder"
    }

    /// Whether the registers are cleared after this builder ran.
    pub fn do_clear(&self) -> (r: bool)
        ensures
            r == true,
    {
        true
    }
}

} // verus!
