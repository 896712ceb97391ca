use vstd::prelude::*;
use super::ast::Ast;

verus! {

/// Why reading or using a syntax tree failed, with a message.
#[derive(Debug)]
pub enum Error {
    InvalidArgs(&'static str),
    InvalidArray(&'static str),
    InvalidString(&'static str),
    InvalidBlock(&'static str),
    InvalidComment(&'static str),
    InvalidVar(&'static str),
    InvalidNumber(&'static str),
    InvalidEquals(&'static str),
    InvalidIoWrite(&'static str),
    AstNotVar(&'static str),
    InvalidGroup(&'static str),
    InvalidAccess(&'static str),
    AstIsNotAFunction(&'static str),
    CannotConvertToDataType(Ast, &'static str),
    CannotGetIfBody(&'static str),
}

} // verus!
