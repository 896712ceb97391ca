pub mod text;
pub mod numeral;
pub mod error;
pub mod builder;
pub mod command;
pub mod data_type;
pub mod memory;
pub mod address;
pub mod data;
pub mod function;
pub mod ast;
pub mod logger;
pub mod kargs;
pub mod token;
pub mod lexer;
pub mod access;
