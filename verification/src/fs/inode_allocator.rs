//! Allocation of inode numbers.
use crate::fs::NodeInfo;
use vstd::prelude::*;

verus! {

/// The device id of allocators that stand alone.
pub const STANDALONE_DEVICE_ID: u64 = 0x53746e64;

/// Allocator for `(device_id, inode)` pairs scoped to one backend instance.
#[derive(Debug)]
pub struct InodeAllocator {
    device_id: usize,
    counter: usize,
}

impl InodeAllocator {
    /// The device that every allocated node belongs to.
    pub closed spec fn device(&self) -> usize {
        self.device_id
    }

    /// The inode number that comes next.
    pub closed spec fn upcoming(&self) -> usize {
        self.counter
    }

    /// The node that comes next.
    pub open spec fn next_node(&self) -> NodeInfo {
        NodeInfo { dev: self.device(), ino: self.upcoming(), rdev: None }
    }

    /// Whether `self` is the allocator `before` after one allocation.
    pub open spec fn advanced_from(&self, before: &InodeAllocator) -> bool {
        &&& self.device() == before.device()
        &&& before.upcoming() < usize::MAX ==> self.upcoming() == before.upcoming() + 1
        &&& before.upcoming() == usize::MAX ==> self.upcoming() == 0
    }

    /// An allocator for a specific device, whose first inode number is 1.
    #[must_use]
    pub fn for_device(device_id: u64) -> (r: Self)
        requires
            device_id <= usize::MAX,
        ensures
            r.device() == device_id,
            r.upcoming() == 1,
    {
        InodeAllocator { device_id: device_id as usize, counter: 1 }
    }

    /// An allocator that uses the device id reserved for standalone backends.
    #[must_use]
    pub fn standalone() -> (r: Self)
        ensures
            r.device() == STANDALONE_DEVICE_ID,
            r.upcoming() == 1,
    {
        Self::for_device(STANDALONE_DEVICE_ID)
    }

    /// A fresh `NodeInfo` for a new entry on this backend. Inode numbers start over at 0 once
    /// all of them have been handed out.
    #[must_use]
    pub fn next(&mut self) -> (r: NodeInfo)
        ensures
            r == old(self).next_node(),
            final(self).advanced_from(old(self)),
    {
        let ino: usize = self.counter;
        self.counter = self.counter.wrapping_add(1);
        NodeInfo { dev: self.device_id, ino, rdev: None }
    }
}

/// The node handed out after `n` further allocations.
pub open spec fn node_after(device: usize, first: usize, n: int) -> NodeInfo {
    NodeInfo { dev: device, ino: ((first + n) % (usize::MAX + 1)) as usize, rdev: None }
}

/// An allocator that has handed out `n` nodes since its number was `first` hands out
/// `node_after(.., n)` next.
pub(crate) proof fn lemma_advance(before: InodeAllocator, after: InodeAllocator, first: usize, n: int)
    requires
        n >= 0,
        after.advanced_from(&before),
        before.next_node() == node_after(before.device(), first, n),
    ensures
        after.next_node() == node_after(before.device(), first, n + 1),
{
    let m = usize::MAX + 1;
    let q = (first + n) / m;
    let x = (first + n) % m;
    assert(first + n == q * m + x && 0 <= x < m) by (nonlinear_arith)
        requires
            m > 0,
            q == (first + n) / m,
            x == (first + n) % m,
    ;
    if x + 1 < m {
        assert((first + n + 1) % m == x + 1) by (nonlinear_arith)
            requires
                first + n + 1 == q * m + (x + 1),
                0 <= x + 1 < m,
        ;
    } else {
        assert((first + n + 1) % m == 0) by (nonlinear_arith)
            requires
                first + n == q * m + x,
                x + 1 == m,
                m > 0,
        ;
    }
}

/// Nodes that one allocator hands out are distinct, until the inode numbers wrap.
pub proof fn lemma_nodes_are_distinct(device: usize, first: usize, m: int, n: int)
    requires
        0 <= m < n <= usize::MAX,
    ensures
        node_after(device, first, m) != node_after(device, first, n),
{
    let size = usize::MAX + 1;
    if (first + m) % size == (first + n) % size {
        vstd::arithmetic::div_mod::lemma_mod_equivalence(first + n, first + m, size as int);
        vstd::arithmetic::div_mod::lemma_small_mod((n - m) as nat, size as nat);
    }
}

/// Nodes of allocators with different devices are distinct.
pub proof fn lemma_devices_are_distinct(d: usize, e: usize, first: usize, other: usize, m: int, n: int)
    requires
        d != e,
    ensures
        node_after(d, first, m) != node_after(e, other, n),
{
}

} // verus!
