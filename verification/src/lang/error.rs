use vstd::prelude::*;
use crate::lang::builder::ast::{Ast, SAst};

verus! {

/// Why reading source text or turning it into commands failed.
#[derive(Debug)]
pub enum ParserError {
    InvalidComment,
    InvalidVar,
    InvalidAssign,
    InvalidEquals,
    InvalidNumber,
    InvalidFloat,
    InvalidAdd,
    InvalidConcat,
    InvalidMul,
    InvalidExp,
    InvalidDiv,
    InvalidRem,
    InvalidIoWrite,
    InvalidIoAppend,
    InvalidBlockStart,
    InvalidBlock,
    InvalidItem,
    InvalidPart,
    InvalidStringStart,
    InvalidString,
    InvalidStringEscape,
    InvalidAccessCall,
    InvalidTotalArgs(usize, usize),
    CannotConvetAstToDataType(Ast),
    CannotConvertAstToCommand(Ast),
    CannotSaveFromAst(Ast),
}

/// The mathematical value of a [`ParserError`]: the tree it carries is
/// taken by its view.
pub enum SParserError {
    InvalidComment,
    InvalidVar,
    InvalidAssign,
    InvalidEquals,
    InvalidNumber,
    InvalidFloat,
    InvalidAdd,
    InvalidConcat,
    InvalidMul,
    InvalidExp,
    InvalidDiv,
    InvalidRem,
    InvalidIoWrite,
    InvalidIoAppend,
    InvalidBlockStart,
    InvalidBlock,
    InvalidItem,
    InvalidPart,
    InvalidStringStart,
    InvalidString,
    InvalidStringEscape,
    InvalidAccessCall,
    InvalidTotalArgs(int, int),
    CannotConvetAstToDataType(SAst),
    CannotConvertAstToCommand(SAst),
    CannotSaveFromAst(SAst),
}

impl View for ParserError {
    type V = SParserError;

    open spec fn view(&self) -> SParserError {
        match self {
            ParserError::InvalidComment => SParserError::InvalidComment,
            ParserError::InvalidVar => SParserError::InvalidVar,
            ParserError::InvalidAssign => SParserError::InvalidAssign,
            ParserError::InvalidEquals => SParserError::InvalidEquals,
            ParserError::InvalidNumber => SParserError::InvalidNumber,
            ParserError::InvalidFloat => SParserError::InvalidFloat,
            ParserError::InvalidAdd => SParserError::InvalidAdd,
            ParserError::InvalidConcat => SParserError::InvalidConcat,
            ParserError::InvalidMul => SParserError::InvalidMul,
            ParserError::InvalidExp => SParserError::InvalidExp,
            ParserError::InvalidDiv => SParserError::InvalidDiv,
            ParserError::InvalidRem => SParserError::InvalidRem,
            ParserError::InvalidIoWrite => SParserError::InvalidIoWrite,
            ParserError::InvalidIoAppend => SParserError::InvalidIoAppend,
            ParserError::InvalidBlockStart => SParserError::InvalidBlockStart,
            ParserError::InvalidBlock => SParserError::InvalidBlock,
            ParserError::InvalidItem => SParserError::InvalidItem,
            ParserError::InvalidPart => SParserError::InvalidPart,
            ParserError::InvalidStringStart => SParserError::InvalidStringStart,
            ParserError::InvalidString => SParserError::InvalidString,
            ParserError::InvalidStringEscape => SParserError::InvalidStringEscape,
            ParserError::InvalidAccessCall => SParserError::InvalidAccessCall,
            ParserError::InvalidTotalArgs(a, b) => SParserError::InvalidTotalArgs(*a as int, *b as int),
            ParserError::CannotConvetAstToDataType(a) => SParserError::CannotConvetAstToDataType(a@),
            ParserError::CannotConvertAstToCommand(a) => SParserError::CannotConvertAstToCommand(a@),
            ParserError::CannotSaveFromAst(a) => SParserError::CannotSaveFromAst(a@),
        }
    }
}

/// Why running a program failed.
#[derive(Debug, PartialEq, Eq, Structural)]
pub enum RuntimeError {
    CannotLoadCountedMemory,
    CannotLoadFixedMemory,
    CannotIncRefCount,
    CannotDecRefCount,
    TargetIsNotABool,
    TargetIsNotAFunction,
    CannotLoadAddressIsData,
    CannotReloadData,
    CannotIncData,
    CannotLoadCurrentCall,
    CannotUpdateCurrentCall,
    InvalidCommandIndex,
    CannotPopStack,
    CannotReturnFromFunction,
    InvalidStackReturnLength,
    InvalidArgumentIndex,
    CannotCompareTypes,
    CannotAddTypes,
    CannotSubTypes,
    NotABool,
    NotAFunction,
    TargetNotAString,
    TargetNotAnArray,
    CannotAccessWithAccessor,
    InvalidAccessor,
    CannotInsertToString,
}

/// Why reading the characters of a program into tokens failed.
#[derive(Debug, Clone, Copy, PartialEq, Eq, Structural)]
pub enum LexerError {
    InvalidTokenLength,
    EndOfFile,
    InvalidFloat,
    InvalidStringEscape,
}

/// Why a value held in a register could not be changed or cast.
#[derive(Debug, PartialEq, Eq, Structural)]
pub enum Error {
    UnableToAppendToWrongType,
    CastFail,
    NYI,
}

/// Why joining tokens into a syntax tree failed.
#[derive(Debug, PartialEq, Eq, Structural)]
pub enum JoinerError {
    InvalidToken,
    TokenFnMismatch,
    NoMuliMatchFound,
    AstMultiMatchVecEmpty,
    InvalidVarForFnCall,
    InvalidGroupForFunction,
}

} // verus!
