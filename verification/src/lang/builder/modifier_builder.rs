use vstd::prelude::*;

verus! {

/// Builds dereferences and casts.
pub struct ModifierBuilder {}

impl ModifierBuilder {
    pub fn new() -> (r: ModifierBuilder) {
        ModifierBuilder {}
    }

    /// The rank of the operators this builder takes: higher ranks are
    /// built first.
    pub fn presedence(&self) -> (r: u64)
        ensures
            r == 3,
    {
        3
    }

    pub fn identify(&self) -> (r: &str)
        ensures
            r == "Modifier Builder",
    {
        "Modifier Builder"
    }

    /// Whether the registers are cleared after this builder ran.
    pub fn do_clear(&self) -> (r: bool)
        ensures
            r == false,
    {
        false
    }
}

} // verus!
