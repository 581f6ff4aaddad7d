use vstd::prelude::*;
use crate::interior::{BorrowState, InteriorMutable};

verus! {

/// A counter whose value lives in an `InteriorMutable`.
///
/// Each method takes the borrow it needs and gives it back before it
/// returns, so between calls the cell is unborrowed and no method can meet
/// a borrow conflict.
pub struct Counter {
    count: InteriorMutable<u32>,
}

impl View for Counter {
    type V = u32;

    closed spec fn view(&self) -> u32 {
        self.count@.payload
    }
}

impl Counter {
    /// The cell is consistent and nothing is borrowed from it.
    pub closed spec fn wf(&self) -> bool {
        &&& self.count.wf()
        &&& self.count@.state() == BorrowState::Unborrowed
    }

    /// A counter at zero.
    pub fn new() -> (counter: Counter)
        ensures
            counter.wf(),
            counter@ == 0,
    {
        Counter { count: InteriorMutable::construct(0) }
    }

    /// Adds one to the counter under an exclusive borrow.
    pub fn increment(&mut self)
        requires
            old(self).wf(),
            old(self)@ < u32::MAX,
        ensures
            final(self).wf(),
            final(self)@ == old(self)@ + 1,
    {
        match self.count.borrow_mut() {
            Ok(guard) => {
                let next: u32 = *self.count.read_exclusive(&guard) + 1;
                self.count.write(&guard, next);
                self.count.release_exclusive(guard);
            },
            Err(_) => {},
        }
    }

    /// Reads the counter under a shared borrow.
    pub fn get(&mut self) -> (value: u32)
        requires
            old(self).wf(),
        ensures
            final(self).wf(),
            final(self)@ == old(self)@,
            value == old(self)@,
    {
        match self.count.borrow() {
            Ok(guard) => {
                let value: u32 = *self.count.read(&guard);
                self.count.release_shared(guard);
                value
            },
            Err(_) => 0,
        }
    }
}

} // verus!
