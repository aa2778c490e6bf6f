//! The race of the cleanup pass against its deadline.

use vstd::prelude::*;

verus! {

/// How long the cleanup pass may take.
pub const CLEANUP_DEADLINE_MILLIS: u64 = 120;

/// Tells work that nobody will read its result. It is looked at between units
/// of work, and once tripped it stays tripped.
///
/// A token cannot be copied: the work and whoever waits for it share the one
/// there is, so that what one of them does to it the other sees.
#[derive(Debug)]
pub struct CancelToken {
    cancelled: bool,
}

impl CancelToken {
    pub closed spec fn tripped(self) -> bool {
        self.cancelled
    }

    pub fn new() -> (token: Self)
        ensures
            !token.tripped(),
    {
        CancelToken { cancelled: false }
    }

    /// Whether the deadline has passed. Work should then return early.
    pub fn is_cancelled(&self) -> (cancelled: bool)
        ensures
            cancelled == self.tripped(),
    {
        self.cancelled
    }

    pub fn cancel(&mut self)
        ensures
            final(self).tripped(),
    {
        self.cancelled = true;
    }
}

/// Settles the race: `result` is what the work had delivered by the deadline.
/// Where there is nothing, the work is told to stop. Whatever it delivers
/// later is never looked at.
pub fn settle<T>(result: Option<T>, token: &mut CancelToken) -> (outcome: Option<T>)
    ensures
        outcome == result,
        final(token).tripped() == (old(token).tripped() || result is None),
{
    if result.is_none() {
        token.cancel();
    }
    result
}

/// The cleanup pass has 120 milliseconds.
pub proof fn law_how_long_cleanup_may_take()
    ensures
        CLEANUP_DEADLINE_MILLIS == 120,
{
}

} // verus!
