//! What the server process owns besides the shared state: the listening
//! address, which has to be given back exactly once.

use vstd::prelude::*;

verus! {

/// Guards the cleanup of the listening address.  However many times a
/// shutdown is asked for, only the first request is told to clean up.
#[derive(Debug)]
pub struct ShutdownLatch {
    claimed: bool,
}

impl ShutdownLatch {
    /// Whether the cleanup has been handed out already.
    pub closed spec fn claimed(&self) -> bool {
        self.claimed
    }

    /// A latch for an address that is still to be cleaned up.
    pub fn new() -> (latch: ShutdownLatch)
        ensures
            !latch.claimed(),
    {
        ShutdownLatch { claimed: false }
    }

    /// Asks for the cleanup.  Returns `true` to the first caller, who then
    /// removes the address, and `false` to everyone after.
    pub fn claim(&mut self) -> (first: bool)
        ensures
            first == !old(self).claimed(),
            final(self).claimed(),
    {
        let first = !self.claimed;
        self.claimed = true;
        first
    }
}

} // verus!
