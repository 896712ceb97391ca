use vstd::prelude::*;

verus! {

/// A token of the program text. A float is kept as the text it was
/// written with.
#[derive(Debug, Clone)]
pub enum Token {
    Constant(String),
    Var(String),
    Integer(i64),
    Float(String),
    Assign,
    End,
}

} // verus!
