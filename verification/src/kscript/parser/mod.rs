pub mod token;
pub mod parser_container;
pub mod end_parser;
pub mod var_parser;
