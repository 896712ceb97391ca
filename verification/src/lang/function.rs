use vstd::prelude::*;

verus! {

/// Where a compiled function starts and how many arguments and locals it has.
#[derive(Debug, Clone, Copy, PartialEq, Eq, Structural)]
pub struct FunctionPointer {
    pub entry_index: usize,
    pub number_arguments: usize,
    pub number_locals: usize,
}

} // verus!
