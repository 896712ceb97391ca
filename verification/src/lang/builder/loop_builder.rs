use vstd::prelude::*;

verus! {

/// Builds loops.
pub struct LoopBuilder {}

impl LoopBuilder {
    pub fn new() -> (r: LoopBuilder) {
        LoopBuilder {}
    }

    /// The rank of the operators this builder takes: higher ranks are
    /// built first.
    pub fn presedence(&self) -> (r: u64)
        ensures
            r == 2,
    {
        2
    }

    pub fn identify(&self) -> (r: &str)
        ensures
            r == "Loop Builder",
    {
        "Loop Builder"
    }

    /// Whether the registers are cleared after this builder ran.
    pub fn do_clear(&self) -> (r: bool)
        ensures
            r == false,
    {
        false
    }
}

} // verus!
