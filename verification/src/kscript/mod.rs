pub mod controller;
pub mod error;
pub mod logger;
pub mod parser;
