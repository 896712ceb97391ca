use vstd::prelude::*;
use crate::lang::data_type::DataType;

verus! {

/// An instruction of the stack machine that the older compiler emits.
#[derive(Debug)]
pub enum Command {
    AddLocals,
    RemoveLocals,
    // add to stack
    Push(DataType),
    LoadStack(usize),
    LoadLocal(usize),
    SaveStack(usize),
    SaveLocal(usize),
    // create an array with values from stack
    MakeArray(usize),
    // pop 1 get accessor pop 2 get target
    Access,
    Equals,
    Add,
    Sub,
    Mul,
    Exp,
    Div,
    Rem,
    IoWrite,
    IoAppend,
    // jump to position if false
    Jmpf(usize),
    // number of args, function position
    Call(usize, usize),
    Return,
    // exit code
    Halt(i32),
}

impl Command {
    pub fn is_return(&self) -> (r: bool)
        ensures
            r == (*self is Return),
    {
        if let Command::Return = *self {
            return true;
        }
        false
    }

    pub fn is_halt(&self) -> (r: bool)
        ensures
            r == (*self is Halt),
    {
        if let Command::Halt(_) = *self {
            return true;
        }
        false
    }
}

} // verus!
