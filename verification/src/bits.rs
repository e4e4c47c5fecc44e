//! Small facts about bits.
use vstd::prelude::*;

verus! {

/// The permissions to read, to write and to execute are different bits, and are all of the lowest
/// three.
pub(crate) proof fn lemma_access_bits(flags: u32)
    ensures
        1u8 | 2u8 == 3u8,
        1u8 | 4u8 == 5u8,
        0x1u32 | 0x2 | 0x4 == 7,
        flags & 7 <= 7,
{
    assert(1u8 | 2u8 == 3u8 && 1u8 | 4u8 == 5u8 && 0x1u32 | 0x2 | 0x4 == 7 && flags & 7 <= 7)
        by (bit_vector);
}

/// The permissions of module memory are different bits.
pub(crate) proof fn lemma_module_bits()
    ensures
        1u64 | 2u64 == 3u64,
        1u64 | 4u64 == 5u64,
{
    assert(1u64 | 2u64 == 3u64 && 1u64 | 4u64 == 5u64) by (bit_vector);
}

/// The size of a page is a power of two.
pub(crate) proof fn lemma_page_bits()
    ensures
        4096u64 & 4095 == 0,
{
    assert(4096u64 & 4095 == 0) by (bit_vector);
}

/// Without flags neither the flag to discard nor that to truncate is set.
pub(crate) proof fn lemma_no_flags()
    ensures
        0u32 & 0x8000 != 0x8000,
        0u32 & 0x20 != 0x20,
{
    assert(0u32 & 0x8000 != 0x8000 && 0u32 & 0x20 != 0x20) by (bit_vector);
}

/// One bit is taken out of a set, and every other one stays.
pub(crate) proof fn lemma_signal_bits(set: u64, bit: u64)
    ensures
        (set & !0x4000_0000u64) & 0x4000_0000 == 0,
        bit & 0x4000_0000 == 0 ==> (set & !0x4000_0000u64) & bit == set & bit,
{
    assert((set & !0x4000_0000u64) & 0x4000_0000 == 0 && (bit & 0x4000_0000 == 0 ==> (set
        & !0x4000_0000u64) & bit == set & bit)) by (bit_vector);
}

/// Permissions are kept as they are, and the flags of a mapping are different bits.
pub(crate) proof fn lemma_mapping_bits(bits: u8, grow: u32, populate: u32)
    requires
        grow == 0 || grow == 0x100,
        populate == 0 || populate == 0x8000,
    ensures
        ((if bits & 1 == 1 {
            1u32
        } else {
            0u32
        }) | (if bits & 2 == 2 {
            2u32
        } else {
            0u32
        }) | (if bits & 4 == 4 {
            4u32
        } else {
            0u32
        })) == (bits & 7) as u32,
        (0x2u32 | 0x20 | 0x10 | (grow | populate)) & 0x2 != 0,
        (0x2u32 | 0x20 | 0x10 | (grow | populate)) & 0x20 != 0,
        (0x2u32 | 0x20 | 0x10 | (grow | populate)) & 0x10 != 0,
        (0x2u32 | 0x20 | 0x10 | (grow | populate)) & 0x1 == 0,
        (0x2u32 | 0x20 | 0x10 | (grow | populate)) & 0x100 == grow,
        (0x2u32 | 0x20 | 0x10 | (grow | populate)) & 0x8000 == populate,
{
    assert((grow == 0 || grow == 0x100) && (populate == 0 || populate == 0x8000) ==> {
        &&& ((if bits & 1 == 1 {
            1u32
        } else {
            0u32
        }) | (if bits & 2 == 2 {
            2u32
        } else {
            0u32
        }) | (if bits & 4 == 4 {
            4u32
        } else {
            0u32
        })) == (bits & 7) as u32
        &&& (0x2u32 | 0x20 | 0x10 | (grow | populate)) & 0x2 != 0
        &&& (0x2u32 | 0x20 | 0x10 | (grow | populate)) & 0x20 != 0
        &&& (0x2u32 | 0x20 | 0x10 | (grow | populate)) & 0x10 != 0
        &&& (0x2u32 | 0x20 | 0x10 | (grow | populate)) & 0x1 == 0
        &&& (0x2u32 | 0x20 | 0x10 | (grow | populate)) & 0x100 == grow
        &&& (0x2u32 | 0x20 | 0x10 | (grow | populate)) & 0x8000 == populate
    }) by (bit_vector);
}

/// Which of the events for readable, writable, failed and hung up are among some of them.
pub(crate) proof fn lemma_event_bits(readable: u32, writable: u32)
    requires
        readable == 0 || readable == 0x1,
        writable == 0 || writable == 0x4,
    ensures
        (readable | writable) & 0x1 == readable,
        (readable | writable) & 0x4 == writable,
        (readable | writable) & 0x8 == 0,
        (readable | writable) & 0x10 == 0,
        readable & 0x1 == readable,
        readable & 0x4 == 0,
        readable & 0x8 == 0,
        readable & 0x10 == 0,
        (readable | (0x10u32 | 0x4u32)) & 0x1 == readable,
        (readable | (0x10u32 | 0x4u32)) & 0x4 == 0x4,
        (readable | (0x10u32 | 0x4u32)) & 0x8 == 0,
        (readable | (0x10u32 | 0x4u32)) & 0x10 == 0x10,
        (readable | (0x8u32 | 0x4u32)) & 0x1 == readable,
        (readable | (0x8u32 | 0x4u32)) & 0x4 == 0x4,
        (readable | (0x8u32 | 0x4u32)) & 0x8 == 0x8,
        (readable | (0x8u32 | 0x4u32)) & 0x10 == 0,
{
    assert((readable == 0 || readable == 0x1) && (writable == 0 || writable == 0x4) ==> {
        &&& (readable | writable) & 0x1 == readable
        &&& (readable | writable) & 0x4 == writable
        &&& (readable | writable) & 0x8 == 0
        &&& (readable | writable) & 0x10 == 0
        &&& readable & 0x1 == readable
        &&& readable & 0x4 == 0
        &&& readable & 0x8 == 0
        &&& readable & 0x10 == 0
        &&& (readable | (0x10u32 | 0x4u32)) & 0x1 == readable
        &&& (readable | (0x10u32 | 0x4u32)) & 0x4 == 0x4
        &&& (readable | (0x10u32 | 0x4u32)) & 0x8 == 0
        &&& (readable | (0x10u32 | 0x4u32)) & 0x10 == 0x10
        &&& (readable | (0x8u32 | 0x4u32)) & 0x1 == readable
        &&& (readable | (0x8u32 | 0x4u32)) & 0x4 == 0x4
        &&& (readable | (0x8u32 | 0x4u32)) & 0x8 == 0x8
        &&& (readable | (0x8u32 | 0x4u32)) & 0x10 == 0
    }) by (bit_vector);
}

} // verus!
