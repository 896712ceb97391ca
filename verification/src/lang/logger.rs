use vstd::prelude::*;

verus! {

/// Where a logger writes.
#[derive(Debug)]
pub enum LoggerMode {
    Void,
    Stdout,
    Stderr,
    // filename
    File(String),
}

/// A logger that writes nothing.
#[derive(Debug)]
pub struct VoidLogger {}

impl VoidLogger {
    pub fn new(_mode: LoggerMode) -> (r: VoidLogger) {
        VoidLogger {}
    }
}

} // verus!
