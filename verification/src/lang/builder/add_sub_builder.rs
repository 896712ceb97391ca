use vstd::prelude::*;

verus! {

/// Builds additions and subtractions.
pub struct AddSubBuilder {}

impl AddSubBuilder {
    pub fn new() -> (r: AddSubBuilder) {
        AddSubBuilder {}
    }

    /// The rank of the operators this builder takes: higher ranks are
    /// built first.
    pub fn presedence(&self) -> (r: u64)
        ensures
            r == 1,
    {
        1
    }

    pub fn identify(&self) -> (r: &str)
        ensures
            r == "Add Sub Builder",
    {
        "Add Sub Builder"
    }

    /// Whether the registers are cleared after this builder ran.
    pub fn do_clear(&self) -> (r: bool)
        ensures
            r == false,
    {
        false
    }
}

} // verus!
