use vstd::prelude::*;

verus! {

/// The read-side state of the versioned structure's synchronization, as
/// this layer observes it: how many read-side critical sections are live.
/// A writer waiting for readers may proceed only once the count is zero.
pub struct RcuState {
    readers: usize,
}

impl RcuState {
    /// How many read-side critical sections are live.
    pub closed spec fn depth(self) -> int {
        self.readers as int
    }

    pub fn new() -> (s: RcuState)
        ensures
            s.depth() == 0,
    {
        RcuState { readers: 0 }
    }

    pub fn reader_count(&self) -> (n: usize)
        ensures
            n as int == self.depth(),
    {
        self.readers
    }
}

/// A token for one read-side critical section: creating it enters the
/// section, releasing it leaves the section, once each. Tokens nest freely.
/// While one is held the holder must not block, or a writer waiting for
/// all readers to leave can be stalled; that is a usage contract this type
/// does not enforce.
pub struct RcuReadGuard {
    entered: (),
}

impl RcuReadGuard {
    /// Enters a read-side critical section.
    pub fn new(state: &mut RcuState) -> (g: RcuReadGuard)
        requires
            old(state).depth() < usize::MAX,
        ensures
            final(state).depth() == old(state).depth() + 1,
    {
        state.readers = state.readers + 1;
        RcuReadGuard { entered: () }
    }

    /// Leaves the critical section. Consuming the token is what pairs each
    /// exit with exactly one entry.
    pub fn release(self, state: &mut RcuState)
        requires
            old(state).depth() > 0,
        ensures
            final(state).depth() == old(state).depth() - 1,
    {
        state.readers = state.readers - 1;
    }
}

} // verus!
