//! How long the event loop is kept going when it fails.

use vstd::prelude::*;

verus! {

/// After how many failures in a row the loop is given up.
pub const MAX_CONSECUTIVE_DISPATCH_ERRORS: u32 = 5;

/// The failures of the event loop since it last succeeded.
#[derive(Debug, Clone, Copy, PartialEq, Eq, Structural)]
pub struct DispatchErrors {
    pub count: u32,
}

impl DispatchErrors {
    /// The loop has not failed often enough to be given up.
    pub open spec fn wf(self) -> bool {
        self.count < MAX_CONSECUTIVE_DISPATCH_ERRORS
    }

    /// The loop has not run yet.
    pub fn new() -> (r: DispatchErrors)
        ensures
            r.wf(),
            r.count == 0,
    {
        DispatchErrors { count: 0 }
    }

    /// The loop succeeded.
    pub fn succeeded(&mut self)
        ensures
            final(self).wf(),
            final(self).count == 0,
    {
        self.count = 0;
    }

    /// The loop failed once more. Whether it is given up: the program then ends
    /// and leaves the session locked.
    pub fn failed(&mut self) -> (give_up: bool)
        requires
            old(self).wf(),
        ensures
            final(self).count == old(self).count + 1,
            give_up == !final(self).wf(),
    {
        self.count = self.count + 1;
        self.count >= MAX_CONSECUTIVE_DISPATCH_ERRORS
    }
}

} // verus!
