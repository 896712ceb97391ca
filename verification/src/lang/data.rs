use vstd::prelude::*;
use crate::lang::function::FunctionPointer;

verus! {

/// A value to be stored in memory. A float is held as the bit pattern of
/// its `f64`.
#[derive(Debug)]
pub enum Data {
    Bool(bool),
    Integer(i64),
    Float(u64),
    String(String),
    Function(FunctionPointer),
}

/// A value read from memory, borrowed from where it is stored.
#[derive(Debug)]
pub enum RefData<'a> {
    String(&'a String),
    Function(&'a FunctionPointer),
}

} // verus!
