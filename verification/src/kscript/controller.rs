use vstd::prelude::*;
use crate::kscript::logger::Logger;

verus! {

/// What the parts of a run share: the logger they report to.
pub struct Controller<T: Logger> {
    logger: T,
}

impl<T: Logger> Controller<T> {
    pub closed spec fn logger(&self) -> T {
        self.logger
    }

    pub fn new(logger: T) -> (r: Controller<T>)
        ensures
            r.logger() == logger,
    {
        Controller { logger: logger }
    }

    /// The logger, to report to.
    pub fn get_logger_mut(&mut self) -> (r: &mut T)
        ensures
            *r == old(self).logger(),
            final(self).logger() == *final(r),
    {
        &mut self.logger
    }
}

} // verus!
