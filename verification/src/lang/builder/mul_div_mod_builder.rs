use vstd::prelude::*;

verus! {

/// Builds multiplications, divisions and remainders.
pub struct MulDivModBuilder {}

impl MulDivModBuilder {
    pub fn new() -> (r: MulDivModBuilder) {
        MulDivModBuilder {}
    }

    /// The rank of the operators this builder takes: higher ranks are
    /// built first.
    pub fn presedence(&self) -> (r: u64)
        ensures
            r == 2,
    {
        2
    }

    pub fn identify(&self) -> (r: &str)
        ensures
            r == "Mul Div Mod Builder",
    {
        "Mul Div Mod Builder"
    }

    /// Whether the registers are cleared after this builder ran.
    pub fn do_clear(&self) -> (r: bool)
        ensures
            r == false,
    {
        false
    }
}

} // verus!
