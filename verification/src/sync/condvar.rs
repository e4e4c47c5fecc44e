//! Condition variables.
use vstd::prelude::*;

verus! {

/// Condition variables. Nothing can be done with them yet.
#[derive(Debug)]
pub struct Condvar {
    futex: u32,
}

impl Condvar {
    /// The word that threads would block on.
    pub closed spec fn word(&self) -> u32 {
        self.futex
    }

    /// A condition variable that nobody waits for.
    pub fn new() -> (r: Self)
        ensures
            r.word() == 0,
    {
        Condvar { futex: 0 }
    }
}

} // verus!
