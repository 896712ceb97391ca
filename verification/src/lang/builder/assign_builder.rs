use vstd::prelude::*;

verus! {

/// Builds assignments.
pub struct AssignBuilder {}

impl AssignBuilder {
    pub fn new() -> (r: AssignBuilder) {
        AssignBuilder {}
    }

    /// The rank of the operators this builder takes: higher ranks are
    /// built first.
    pub fn presedence(&self) -> (r: u64)
        ensures
            r == 1,
    {
        1
    }
}

} // verus!
