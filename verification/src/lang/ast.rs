use vstd::prelude::*;

verus! {

/// A name resolved to the n-th argument or the n-th local of a function.
#[derive(Debug, Clone, Copy, PartialEq, Eq, Structural)]
pub enum Var {
    Arg(usize),
    Local(usize),
}

} // verus!
