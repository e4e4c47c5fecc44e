//! Physical and virtual addresses.
use crate::lvbs::errors::VsmError;
use vstd::prelude::*;
use x86_64::{PhysAddr, VirtAddr};

verus! {

/// One more than the largest physical address.
pub const PHYS_LIMIT: u64 = 0x10_0000_0000_0000;

/// One more than the largest virtual address of the lower half.
pub const LOWER_HALF_END: u64 = 0x8000_0000_0000;

/// The smallest virtual address of the upper half.
pub const UPPER_HALF_START: u64 = 0xffff_8000_0000_0000;

/// The size of a page.
pub const PAGE: u64 = 4096;

/// Whether a number is a physical address: no bit in the range 52 to 64 is set.
pub open spec fn is_physical(addr: u64) -> bool {
    addr < PHYS_LIMIT
}

/// Whether a number is a virtual address: bits 48 to 64 are copies of bit 47.
pub open spec fn is_canonical(addr: u64) -> bool {
    addr < LOWER_HALF_END || addr >= UPPER_HALF_START
}

/// Whether a number is a power of two.
pub open spec fn is_power_of_two(n: u64) -> bool {
    n > 0 && n & ((n - 1) as u64) == 0
}

/// [`x86_64::PhysAddr::try_new`]: whether a number is a physical address.
#[verifier::external_body]
pub(crate) fn phys_is_valid(addr: u64) -> (r: bool)
    ensures
        r == is_physical(addr),
{
    PhysAddr::try_new(addr).is_ok()
}

/// [`x86_64::VirtAddr::try_new`]: whether a number is a virtual address.
#[verifier::external_body]
pub(crate) fn virt_is_valid(addr: u64) -> (r: bool)
    ensures
        r == is_canonical(addr),
{
    VirtAddr::try_new(addr).is_ok()
}

/// [`x86_64::PhysAddr::is_aligned`]: whether a physical address has an alignment.
#[verifier::external_body]
pub(crate) fn phys_is_aligned(addr: u64, align: u64) -> (r: bool)
    requires
        is_physical(addr),
        is_power_of_two(align),
    ensures
        r == (addr % align == 0),
{
    PhysAddr::new(addr).is_aligned(align)
}

/// [`x86_64::VirtAddr::is_aligned`]: whether a virtual address has an alignment.
#[verifier::external_body]
pub(crate) fn virt_is_aligned(addr: u64, align: u64) -> (r: bool)
    requires
        is_canonical(addr),
        is_power_of_two(align),
    ensures
        r == (addr % align == 0),
{
    VirtAddr::new(addr).is_aligned(align)
}

/// [`x86_64::PhysAddr::align_up`] to pages: the first page boundary that is not below a physical
/// address. It panics where that is no physical address.
#[verifier::external_body]
pub(crate) fn phys_page_up(addr: u64) -> (r: u64)
    requires
        addr <= PHYS_LIMIT - PAGE,
    ensures
        r % PAGE == 0,
        addr <= r < addr + PAGE,
{
    PhysAddr::new(addr).align_up(4096u64).as_u64()
}

/// The page of an address.
pub open spec fn page_of(addr: int) -> int {
    addr - addr % PAGE as int
}

/// The pages that a contiguous span covers, and where in the first of them it starts.
pub open spec fn covers(phys_addr: u64, len: int, pages: Seq<u64>, offset: u64) -> bool {
    &&& offset == phys_addr % PAGE
    &&& pages.len() == (page_of(phys_addr + len - 1) - page_of(phys_addr as int)) / PAGE as int + 1
    &&& forall|k: int|
        0 <= k < pages.len() ==> #[trigger] pages[k] == page_of(phys_addr as int) + k * PAGE
}

/// The pages that a contiguous span of physical memory covers, and where in the first of them it
/// starts. An empty span covers none.
pub fn contiguous_pages(phys_addr: u64, len: u64) -> (r: Result<(Vec<u64>, u64), VsmError>)
    ensures
        len == 0 ==> r is Ok && r->Ok_0.0@.len() == 0 && r->Ok_0.1 == 0,
        len > 0 ==> (r is Ok <==> phys_addr + len <= u64::MAX),
        r is Err ==> r->Err_0 is IntegerOverflow,
        len > 0 && r is Ok ==> covers(phys_addr, len as int, r->Ok_0.0@, r->Ok_0.1),
{
    let mut pages: Vec<u64> = Vec::new();
    if len == 0 {
        return Ok((pages, 0));
    }
    if len > u64::MAX - phys_addr {
        return Err(VsmError::IntegerOverflow);
    }
    let offset: u64 = phys_addr % PAGE;
    let start_page: u64 = phys_addr - offset;
    let last: u64 = phys_addr + (len - 1);
    let last_page: u64 = last - last % PAGE;
    let ghost count = (last_page - start_page) / PAGE as int + 1;
    proof {
        lemma_pages(phys_addr as int, last as int);
    }
    let mut p: u64 = start_page;
    let mut going = true;
    let ghost mut k: int = 0;
    while going
        invariant
            pages.len() == k,
            0 <= k <= count,
            going ==> k < count,
            !going ==> k == count,
            count == (last_page - start_page) / PAGE as int + 1,
            last_page == start_page + (count - 1) * PAGE,
            going ==> p == start_page + k * PAGE,
            forall|j: int| 0 <= j < k ==> #[trigger] pages@[j] == start_page + j * PAGE,
        decreases count - k,
    {
        pages.push(p);
        proof {
            k = k + 1;
        }
        if p == last_page {
            assert(k == count) by (nonlinear_arith)
                requires
                    start_page + (k - 1) * PAGE == start_page + (count - 1) * PAGE,
                    PAGE == 4096,
            ;
            going = false;
        } else {
            assert(k < count && p + PAGE <= last_page) by (nonlinear_arith)
                requires
                    p == start_page + (k - 1) * PAGE,
                    last_page == start_page + (count - 1) * PAGE,
                    p != last_page,
                    k <= count,
                    PAGE == 4096,
            ;
            p = p + PAGE;
            assert(p == start_page + k * PAGE) by (nonlinear_arith)
                requires
                    p == start_page + (k - 1) * PAGE + PAGE,
            ;
        }
    }
    Ok((pages, offset))
}

proof fn lemma_pages(first: int, last: int)
    requires
        0 <= first <= last,
    ensures
        page_of(first) <= page_of(last),
        page_of(last) == page_of(first) + (page_of(last) - page_of(first)) / PAGE as int * PAGE,
{
    let size = PAGE as int;
    let a = first / size;
    let b = last / size;
    assert(first == a * size + first % size && last == b * size + last % size && a <= b)
        by (nonlinear_arith)
        requires
            a == first / size,
            b == last / size,
            size == 4096,
            first <= last,
    ;
    assert(page_of(last) - page_of(first) == (b - a) * size) by (nonlinear_arith)
        requires
            page_of(last) == b * size,
            page_of(first) == a * size,
    ;
    assert(((b - a) * size) / size == b - a) by (nonlinear_arith)
        requires
            size == 4096,
    ;
    assert((b - a) * size >= 0) by (nonlinear_arith)
        requires
            b >= a,
            size == 4096,
    ;
}

/// The pages of a span hold its first and its last byte.
pub proof fn lemma_span_is_covered(phys_addr: u64, len: int, pages: Seq<u64>, offset: u64)
    requires
        len > 0,
        covers(phys_addr, len, pages, offset),
    ensures
        pages.len() > 0,
        pages[0] + offset == phys_addr,
        pages.last() <= phys_addr + len - 1 < pages.last() + PAGE,
{
    lemma_pages(phys_addr as int, phys_addr + len - 1);
    let count = pages.len() as int;
    assert(count >= 1) by (nonlinear_arith)
        requires
            count == (page_of(phys_addr + len - 1) - page_of(phys_addr as int)) / PAGE as int + 1,
            page_of(phys_addr + len - 1) >= page_of(phys_addr as int),
            PAGE == 4096,
    ;
    assert(pages[0] == page_of(phys_addr as int) + 0 * PAGE);
    assert(pages[count - 1] == page_of(phys_addr as int) + (count - 1) * PAGE);
}

} // verus!
