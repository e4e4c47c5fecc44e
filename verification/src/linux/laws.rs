//! What holds of the memory management system calls.
use crate::bits::lemma_access_bits;
use crate::linux::mm::{
    madvise_request, mmap_request, mprotect_request, mremap_request, munmap_length, munmap_outcome,
    MRemapFlags, MadviseBehavior, MapFlags, ProtFlags, UnmapOutcome,
};
use crate::mm::{lemma_page_ceiling, MappingError};
use vstd::prelude::*;

verus! {

/// The pages that `mmap` maps can be read, written and executed exactly if the protection says so:
/// read, write and execute are the bits 1, 2 and 4 of both. This is for each protection that is
/// supported: none, read, read and write, read and execute. Pages with any other protection are
/// inaccessible.
pub proof fn lemma_mapped_as_protected(
    addr: Option<usize>,
    len: usize,
    prot: ProtFlags,
    flags: MapFlags,
    ensure_space_after: bool,
)
    requires
        mmap_request(addr, len, prot, flags, ensure_space_after) is Ok,
    ensures
        ({
            let request = mmap_request(addr, len, prot, flags, ensure_space_after)->Ok_0;
            request.permissions.bits == if prot.bits == 0 || prot.bits == 1 || prot.bits == 3
                || prot.bits == 5 {
                prot.bits
            } else {
                0
            }
        }),
{
    lemma_access_bits(0);
}

/// The pages that `mmap` maps are at the address and of the length that are asked for, and are
/// made as the flags say: at just that address (0x10), the same without replacing others
/// (0x100000), filled at once (0x8000), of a file unless anonymous (0x20), shared (0x1).
pub proof fn lemma_mapped_as_flagged(
    addr: Option<usize>,
    len: usize,
    prot: ProtFlags,
    flags: MapFlags,
    ensure_space_after: bool,
)
    requires
        mmap_request(addr, len, prot, flags, ensure_space_after) is Ok,
    ensures
        ({
            let request = mmap_request(addr, len, prot, flags, ensure_space_after)->Ok_0;
            &&& request.suggested_address == addr
            &&& request.length == len
            &&& request.flags.fixed_addr == (flags.bits & 0x10 == 0x10 || flags.bits & 0x100000
                == 0x100000)
            &&& request.flags.noreplace == (flags.bits & 0x100000 == 0x100000)
            &&& request.flags.populate_pages_immediately == (flags.bits & 0x8000 == 0x8000)
            &&& request.flags.map_file == (flags.bits & 0x20 != 0x20)
            &&& request.flags.shared == (flags.bits & 0x1 == 0x1)
            &&& request.flags.ensure_space_after == ensure_space_after
            &&& !request.flags.is_stack
        }),
{
}

/// `mmap` takes exactly the whole pages: a length that is a positive multiple of 4096 and, if one
/// is given, an address that is so too.
pub proof fn lemma_mapped_pages_are_whole(
    addr: Option<usize>,
    len: usize,
    prot: ProtFlags,
    flags: MapFlags,
    ensure_space_after: bool,
)
    ensures
        ({
            let r = mmap_request(addr, len, prot, flags, ensure_space_after);
            &&& r is Ok <==> len > 0 && len % 4096 == 0 && (addr is Some ==> addr->Some_0 > 0
                && addr->Some_0 % 4096 == 0)
            &&& r is Err ==> r->Err_0 == MappingError::UnAligned
        }),
{
}

/// What `munmap` removes are the fewest pages that hold the length. It refuses, with the error
/// number 22, an address within a page, a length of zero, and pages that end out of the addresses.
pub proof fn lemma_unmapped_pages(addr: usize, len: usize)
    ensures
        ({
            let r = munmap_length(addr, len);
            &&& r is Ok ==> {
                &&& r->Ok_0 % 4096 == 0
                &&& len <= r->Ok_0 < len + 4096
                &&& addr + r->Ok_0 <= usize::MAX
                &&& addr % 4096 == 0
                &&& len > 0
            }
            &&& r is Err ==> r->Err_0.number == 22
            &&& addr % 4096 == 0 && len > 0 && addr + len + 4095 <= usize::MAX ==> r is Ok
        }),
{
    lemma_page_ceiling(len as int);
}

/// `munmap` succeeds where pages were removed and where none was mapped, and fails, with the error
/// number 22, only where they are not whole.
pub proof fn lemma_unmapping_nothing_succeeds(outcome: UnmapOutcome)
    ensures
        munmap_outcome(outcome) is Err <==> outcome is UnAligned,
        munmap_outcome(outcome) is Err ==> munmap_outcome(outcome)->Err_0.number == 22,
{
}

/// `mprotect` gives the pages just the permissions that the protection names, where it is one of
/// none, read, read and write, read and execute, all three. Any other is refused, with the error
/// number 22, as is an address within a page; there is nothing to do for a length of zero.
pub proof fn lemma_protected_as_named(addr: usize, len: usize, prot: ProtFlags)
    ensures
        ({
            let r = mprotect_request(addr, len, prot);
            &&& addr % 4096 != 0 ==> r is Err
            &&& addr % 4096 == 0 && len == 0 ==> r is Ok && r->Ok_0 is None
            &&& addr % 4096 == 0 && len > 0 ==> {
                &&& r is Ok <==> prot.bits == 0 || prot.bits == 1 || prot.bits == 3 || prot.bits
                    == 5 || prot.bits == 7
                &&& r is Ok ==> r->Ok_0 is Some && r->Ok_0->Some_0.bits == prot.bits
            }
            &&& r is Err ==> r->Err_0.number == 22
        }),
{
}

/// What `mremap` resizes are the fewest pages that hold the old size, to the fewest that hold the
/// new size, and they may move exactly if the flags say so: the only flag that is supported. All
/// else is refused, with the error number 22.
pub proof fn lemma_remapped_pages(
    old_addr: usize,
    old_size: usize,
    new_size: usize,
    flags: MRemapFlags,
)
    ensures
        ({
            let r = mremap_request(old_addr, old_size, new_size, flags);
            &&& r is Ok ==> {
                &&& r->Ok_0.old_addr == old_addr
                &&& old_addr % 4096 == 0
                &&& r->Ok_0.old_size % 4096 == 0
                &&& old_size <= r->Ok_0.old_size < old_size + 4096
                &&& r->Ok_0.new_size % 4096 == 0
                &&& new_size <= r->Ok_0.new_size < new_size + 4096
                &&& new_size > 0
                &&& flags.bits == 0 || flags.bits == 1
                &&& r->Ok_0.may_move == (flags.bits == 1)
            }
            &&& r is Err ==> r->Err_0.number == 22
            &&& old_addr % 4096 == 0 && (flags.bits == 0 || flags.bits == 1) && new_size > 0
                && new_size + 4095 <= usize::MAX && old_size + 4095 <= usize::MAX ==> r is Ok
        }),
{
    lemma_page_ceiling(old_size as int);
    lemma_page_ceiling(new_size as int);
    let bits = flags.bits;
    assert((bits & !(0x1u32 | 0x2 | 0x4) == 0 && bits & 2 != 2 && bits & 4 != 4) <==> (bits == 0
        || bits == 1)) by (bit_vector);
    assert(0u32 & 1 == 0 && 1u32 & 1 == 1) by (bit_vector);
}

/// What `madvise` resets are the fewest pages that hold the length: at once for pages that are not
/// needed, when memory is needed for pages that are free. Other advice asks for nothing.
pub proof fn lemma_advised_pages(addr: usize, len: usize, advice: MadviseBehavior)
    ensures
        ({
            let r = madvise_request(addr, len, advice);
            &&& r is Ok && r->Ok_0 is Reset ==> {
                &&& r->Ok_0->len % 4096 == 0
                &&& len <= r->Ok_0->len < len + 4096
                &&& addr + r->Ok_0->len <= usize::MAX
                &&& len > 0
                &&& addr % 4096 == 0
                &&& r->Ok_0->lazily == (advice is Free)
                &&& advice is Free || advice is DontNeed
            }
            &&& r is Ok && len > 0 && (advice is Free || advice is DontNeed) ==> r->Ok_0 is Reset
            &&& r is Err ==> r->Err_0.number == 22
            &&& addr % 4096 != 0 ==> r is Err
            &&& addr % 4096 == 0 && len == 0 ==> r is Ok
            &&& addr % 4096 == 0 && addr + len + 4095 <= usize::MAX ==> r is Ok
        }),
{
    lemma_page_ceiling(len as int);
}

} // verus!
