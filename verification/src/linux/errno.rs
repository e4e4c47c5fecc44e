//! Error numbers.
use vstd::prelude::*;

verus! {

/// Error numbers that are reported to programs.
#[derive(Clone, Copy, Debug, PartialEq, Eq, Structural)]
pub struct Errno {
    pub number: i32,
}

impl Errno {
    pub const EPERM: i32 = 1;
    pub const ENOENT: i32 = 2;
    pub const EINTR: i32 = 4;
    pub const EIO: i32 = 5;
    pub const E2BIG: i32 = 7;
    pub const EAGAIN: i32 = 11;
    pub const ENOMEM: i32 = 12;
    pub const EACCES: i32 = 13;
    pub const EFAULT: i32 = 14;
    pub const EBUSY: i32 = 16;
    pub const EEXIST: i32 = 17;
    pub const EINVAL: i32 = 22;
    pub const ENOSPC: i32 = 28;
    pub const ERANGE: i32 = 34;
    pub const ENOSYS: i32 = 38;
    pub const ENODATA: i32 = 61;
    pub const ENOPKG: i32 = 65;
    pub const EOVERFLOW: i32 = 75;
    pub const ELIBBAD: i32 = 80;
    pub const ENOTSUP: i32 = 95;
    pub const ETIMEDOUT: i32 = 110;
    pub const ENOKEY: i32 = 126;
    pub const EKEYREJECTED: i32 = 129;

    /// An error number.
    pub fn new(number: i32) -> (r: Errno)
        ensures
            r == (Errno { number }),
    {
        Errno { number }
    }
}

} // verus!
