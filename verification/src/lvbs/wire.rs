//! Numbers in the form in which they are passed.
use vstd::prelude::*;

verus! {

/// The number whose bytes, the least significant one first, start at a position.
pub open spec fn u32_at(s: Seq<u8>, at: int) -> u32 {
    (s[at] + s[at + 1] * 0x100 + s[at + 2] * 0x1_0000 + s[at + 3] * 0x100_0000) as u32
}

/// The number whose bytes, the most significant one first, start at a position.
pub open spec fn be_u32_at(s: Seq<u8>, at: int) -> u32 {
    (s[at] * 0x100_0000 + s[at + 1] * 0x1_0000 + s[at + 2] * 0x100 + s[at + 3]) as u32
}

/// The number whose bytes, the least significant one first, start at a position.
pub open spec fn u64_at(s: Seq<u8>, at: int) -> u64 {
    (u32_at(s, at) + u32_at(s, at + 4) * 0x1_0000_0000) as u64
}

pub(crate) fn read_u32(bytes: &[u8], at: usize) -> (r: u32)
    requires
        at + 4 <= bytes@.len(),
    ensures
        r == u32_at(bytes@, at as int),
{
    let low: u32 = bytes[at] as u32 + bytes[at + 1] as u32 * 0x100;
    let high: u32 = bytes[at + 2] as u32 * 0x1_0000 + bytes[at + 3] as u32 * 0x100_0000;
    low + high
}

pub(crate) fn read_be_u32(bytes: &[u8], at: usize) -> (r: u32)
    requires
        at + 4 <= bytes@.len(),
    ensures
        r == be_u32_at(bytes@, at as int),
{
    let high: u32 = bytes[at] as u32 * 0x100_0000 + bytes[at + 1] as u32 * 0x1_0000;
    let low: u32 = bytes[at + 2] as u32 * 0x100 + bytes[at + 3] as u32;
    high + low
}

pub(crate) fn read_u64(bytes: &[u8], at: usize) -> (r: u64)
    requires
        at + 8 <= bytes@.len(),
    ensures
        r == u64_at(bytes@, at as int),
{
    let end: usize = bytes.len();
    assert(at + 8 <= end);
    let low: u64 = read_u32(bytes, at) as u64;
    let high: u64 = read_u32(bytes, at + 4) as u64;
    low + high * 0x1_0000_0000
}

} // verus!
