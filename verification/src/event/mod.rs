//! Events, and waiting for them.
use vstd::prelude::*;

pub mod laws;
pub mod polling;
pub mod wait;

verus! {

/// Events that a file or a socket can report. The bits are those of `poll`.
#[derive(Clone, Copy, Debug, PartialEq, Eq, Structural)]
pub struct Events {
    pub bits: u32,
}

impl Events {
    /// There is data to read.
    pub const IN: u32 = 0x1;
    /// There is some exceptional condition.
    pub const PRI: u32 = 0x2;
    /// Writing is possible.
    pub const OUT: u32 = 0x4;
    /// An error condition.
    pub const ERR: u32 = 0x8;
    /// Hang up.
    pub const HUP: u32 = 0x10;
    /// Invalid request: the file descriptor is not open.
    pub const NVAL: u32 = 0x20;
    /// The events that are always polled for.
    pub const ALWAYS_POLLED: u32 = 0x8 | 0x10;

    /// Whether every event of `other` is among these.
    pub open spec fn has(self, other: u32) -> bool {
        self.bits & other == other
    }

    /// Whether some event of `other` is among these.
    pub open spec fn meets(self, other: u32) -> bool {
        self.bits & other != 0
    }

    /// No event.
    pub fn empty() -> (r: Events)
        ensures
            r == (Events { bits: 0 }),
    {
        Events { bits: 0 }
    }

    /// Whether there is no event.
    pub fn is_empty(self) -> (r: bool)
        ensures
            r == (self.bits == 0),
    {
        self.bits == 0
    }

    /// Whether every event of `other` is among these.
    pub fn contains(self, other: u32) -> (r: bool)
        ensures
            r == self.has(other),
    {
        self.bits & other == other
    }

    /// Whether some event of `other` is among these.
    pub fn intersects(self, other: u32) -> (r: bool)
        ensures
            r == self.meets(other),
    {
        self.bits & other != 0
    }
}

} // verus!
