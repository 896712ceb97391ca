use vstd::prelude::*;

verus! {

/// Builds commands of one operand: runs and dereferences.
pub struct SingleCommandBuilder {}

impl SingleCommandBuilder {
    pub fn new() -> (r: SingleCommandBuilder) {
        SingleCommandBuilder {}
    }

    /// The rank of the operators this builder takes: higher ranks are
    /// built first.
    pub fn presedence(&self) -> (r: u64)
        ensures
            r == 2,
    {
        2
    }

    pub fn identify(&self) -> (r: &str)
        ensures
            r == "Run Builder",
    {
        "Run Builder"
    }

    /// Whether the registers are cleared after this builder ran.
    pub fn do_clear(&self) -> (r: bool)
        ensures
            r == false,
    {
        false
    }
}

} // verus!
