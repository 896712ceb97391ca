//! A small scripting language: its scanner, parser, operator-precedence
//! reordering, compiler to stack-machine commands, and the reference-counted
//! memory its values live in.
pub mod lang;
pub mod kscript;
pub mod ast;
pub mod command;
