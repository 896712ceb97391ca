use vstd::prelude::*;

verus! {

/// Why reading a program failed: the character, its index and its line.
#[derive(Debug, Clone, Copy, PartialEq, Eq, Structural)]
pub enum Error {
    CheckMismatch(char, usize, usize),
    InvalidVariableChar(char, usize, usize),
    InvalidConstantChar(char, usize, usize),
}

} // verus!
