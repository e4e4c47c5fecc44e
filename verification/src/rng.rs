//! A fast pseudo-random number generator.
use vstd::prelude::*;

verus! {

/// One step of the generator: an xorshift on 64 bits.
pub open spec fn xorshift(x: u64) -> u64 {
    let a = x ^ (x << 13u64);
    let b = a ^ (a >> 7u64);
    b ^ (b << 17u64)
}

/// A fast generator whose numbers are *not* fit for cryptography.
#[derive(Debug)]
pub struct FastRng {
    state: u64,
}

impl View for FastRng {
    type V = u64;

    closed spec fn view(&self) -> u64 {
        self.state
    }
}

impl FastRng {
    /// A generator that starts from a seed, which must not be zero.
    pub fn new_from_seed(seed: u64) -> (r: FastRng)
        requires
            seed != 0,
        ensures
            r@ == seed,
    {
        FastRng { state: seed }
    }

    /// The next number.
    pub fn next_u64(&mut self) -> (r: u64)
        ensures
            final(self)@ == xorshift(old(self)@),
            r == final(self)@,
    {
        let x: u64 = self.state;
        let a: u64 = x ^ (x << 13u64);
        let b: u64 = a ^ (a >> 7u64);
        self.state = b ^ (b << 17u64);
        self.state
    }

    /// The next number in a range, which must not be empty.
    pub fn next_in_range_u32(&mut self, start: u32, end: u32) -> (r: u32)
        requires
            start < end,
        ensures
            final(self)@ == xorshift(old(self)@),
            start <= r < end,
            r == start + final(self)@ % ((end - start) as u64),
    {
        let span: u64 = (end - start) as u64;
        let n: u64 = self.next_u64();
        let below: u64 = n % span;
        assert(below < span);
        start + below as u32
    }
}

/// No step of the generator ends at zero, where all further numbers would be zero.
pub proof fn lemma_never_zero(x: u64)
    requires
        x != 0,
    ensures
        xorshift(x) != 0,
{
    assert(x != 0 ==> x ^ (x << 13u64) != 0) by (bit_vector);
    let a = x ^ (x << 13u64);
    assert(a != 0 ==> a ^ (a >> 7u64) != 0) by (bit_vector);
    let b = a ^ (a >> 7u64);
    assert(b != 0 ==> b ^ (b << 17u64) != 0) by (bit_vector);
}

} // verus!
