use vstd::prelude::*;

verus! {

/// What a variable parser is in the middle of reading.
pub enum VarParserState {
    Nothing,
    Variable,
    Constant,
}

/// Reads names of variables and constants.
pub struct VarParser {
    state: VarParserState,
}

impl VarParser {
    pub closed spec fn state(&self) -> VarParserState {
        self.state
    }

    pub fn new() -> (r: VarParser)
        ensures
            r.state() is Nothing,
    {
        VarParser { state: VarParserState::Nothing }
    }
}

} // verus!
