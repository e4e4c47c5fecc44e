//! What holds of pages that are created, protected, removed and looked up.
use crate::bits::lemma_access_bits;
use crate::mm::{
    all_have, are_mappings, are_pages, are_permissions_of, break_after, brk_looked_request,
    can_set_brk, create_request, fault_plan, has_at, is_above, is_before, is_brk_step,
    is_page_aligned, is_protect_request, is_remap_range, lemma_page_ceiling, page_ceiling,
    page_floor, remap_result, remap_step, BrkStep, CreatePagesFlags, CreateRequest, FaultPlan,
    Mapping, MappingError, MemoryRegionPermissions, MoveOutcome, PageFaultError, PageKind,
    PageRange, ProtectRequest, RemapError, RemapStep, ResizeOutcome, VmemProtectError,
};
use vstd::prelude::*;

verus! {

/// A length rounded up to pages is a multiple of 4096, holds the length, and would not do so with
/// a page less.
pub proof fn lemma_rounded_to_pages(n: int)
    requires
        n >= 0,
    ensures
        page_ceiling(n) % 4096 == 0,
        n <= page_ceiling(n) < n + 4096,
{
    lemma_page_ceiling(n);
}

/// Pages of each kind can be accessed as its name says: read, write and execute are the bits 1, 2
/// and 4. What is not inaccessible can be read and written, and not executed, while it is filled.
pub proof fn lemma_permissions_of_kinds(
    kind: PageKind,
    addr: Option<usize>,
    len: usize,
    flags: CreatePagesFlags,
)
    ensures
        ({
            let request = create_request(kind, addr, len, flags);
            &&& request.permissions.bits == match kind {
                PageKind::Executable => 5u8,
                PageKind::Writable | PageKind::Stack => 3u8,
                PageKind::Readable => 1u8,
                PageKind::Inaccessible => 0u8,
            }
            &&& request.while_filling.bits == if kind is Inaccessible {
                0u8
            } else {
                3u8
            }
        }),
{
    lemma_access_bits(0);
}

/// Pages are created where and as long as they were asked for, and with the flags that were asked
/// for, but that pages of a stack are always for a stack.
pub proof fn lemma_created_as_asked(
    kind: PageKind,
    addr: Option<usize>,
    len: usize,
    flags: CreatePagesFlags,
)
    ensures
        ({
            let request = create_request(kind, addr, len, flags);
            &&& request.suggested_address == addr
            &&& request.length == len
            &&& request.flags.is_stack == (flags.is_stack || kind is Stack)
            &&& request.flags.fixed_addr == flags.fixed_addr
            &&& request.flags.noreplace == flags.noreplace
            &&& request.flags.populate_pages_immediately == flags.populate_pages_immediately
            &&& request.flags.ensure_space_after == flags.ensure_space_after
            &&& request.flags.map_file == flags.map_file
            &&& request.flags.shared == flags.shared
        }),
{
}

/// The first program break is taken as it is, and asking for zero tells the current one.
pub proof fn lemma_break_is_told(current: usize, brk: usize, after: usize, r: BrkStep)
    requires
        is_brk_step(current, brk, after, r),
    ensures
        current == 0 ==> r == BrkStep::Done(brk) && after == brk,
        current != 0 && brk == 0 ==> r == BrkStep::Done(current),
        current != 0 ==> after == current,
{
}

/// The break is the one that was asked for once its pages are removed or created, and stays where
/// it was if that failed.
pub proof fn lemma_break_is_kept(current: usize, brk: usize)
    ensures
        break_after(current, brk, true) == brk,
        break_after(current, brk, false) == current,
{
}

/// When the break is lowered, every page in use that holds no byte below the new break is removed.
/// What is removed starts less than a page above the new break, ends less than a page above the
/// old one, and is made of whole pages. Where there is nothing to remove, that is an error.
pub proof fn lemma_lowered_break(current: usize, brk: usize, after: usize, r: BrkStep, a: int)
    requires
        is_brk_step(current, brk, after, r),
        can_set_brk(current, brk),
        0 < brk <= current,
    ensures
        brk <= a < current && a % 4096 == 0 ==> {
            &&& r is Remove
            &&& r->Remove_0.first() <= a
            &&& a + 4096 <= r->Remove_0.last()
        },
        r is Remove ==> {
            &&& brk <= r->Remove_0.first() < brk + 4096
            &&& current <= r->Remove_0.last() < current + 4096
            &&& r->Remove_0.first() % 4096 == 0
            &&& r->Remove_0.last() % 4096 == 0
            &&& r->Remove_0.first() < r->Remove_0.last()
        },
        !(r is Remove) ==> r == BrkStep::Failed(MappingError::UnAligned),
{
    lemma_page_ceiling(current as int);
    lemma_page_ceiling(brk as int);
    if brk <= a < current && a % 4096 == 0 {
        assert(is_page_aligned(a));
    }
}

/// When the break is raised, it is first looked at all the pages that hold a byte at or above the
/// old break and below the new one and that were not in use.
pub proof fn lemma_raised_break(current: usize, brk: usize, after: usize, r: BrkStep)
    requires
        is_brk_step(current, brk, after, r),
        can_set_brk(current, brk),
        0 < current < brk,
    ensures
        r is Look,
        r->start % 4096 == 0,
        r->end % 4096 == 0,
        current <= r->start < current + 4096,
        brk <= r->end < brk + 4096,
{
    lemma_page_ceiling(current as int);
    lemma_page_ceiling(brk as int);
}

/// Pages for a raised break are not created over others. Otherwise readable and writable pages
/// are created, at just that place, from the end of the page of the old break to the end of the
/// page of the new one. There is nothing to create exactly if both are on one page.
pub proof fn lemma_pages_for_break(current: usize, brk: usize)
    requires
        current < brk,
        page_ceiling(brk as int) <= usize::MAX,
    ensures
        brk_looked_request(current, brk, true) == Err::<Option<CreateRequest>, MappingError>(
            MappingError::OutOfMemory,
        ),
        brk_looked_request(current, brk, false) is Ok,
        ({
            let r = brk_looked_request(current, brk, false)->Ok_0;
            &&& r is None <==> (current + 4095) / 4096 == (brk + 4095) / 4096
            &&& r is Some ==> {
                let first = r->Some_0.suggested_address;
                &&& first is Some
                &&& first->Some_0 % 4096 == 0
                &&& current <= first->Some_0 < current + 4096
                &&& r->Some_0.length > 0
                &&& r->Some_0.length % 4096 == 0
                &&& brk <= first->Some_0 + r->Some_0.length < brk + 4096
                &&& r->Some_0.permissions.bits == 3
                &&& r->Some_0.while_filling.bits == 3
                &&& r->Some_0.flags.fixed_addr
                &&& r->Some_0.flags.populate_pages_immediately
                &&& !r->Some_0.flags.noreplace
                &&& !r->Some_0.flags.is_stack
                &&& !r->Some_0.flags.ensure_space_after
                &&& !r->Some_0.flags.map_file
                &&& !r->Some_0.flags.shared
            }
        }),
{
    lemma_page_ceiling(current as int);
    lemma_page_ceiling(brk as int);
    lemma_access_bits(0);
}

/// A range to remove, reset, protect or resize is given exactly where both of its ends are
/// multiples of 4096 and it is not empty, and it is the one from the start on.
pub proof fn lemma_whole_pages_only(start: usize, len: usize, r: Option<PageRange>)
    requires
        are_pages(start, len, r),
        start + len <= usize::MAX,
    ensures
        r is Some <==> start % 4096 == 0 && len % 4096 == 0 && len > 0,
        r is Some ==> r->Some_0.first() == start && r->Some_0.last() - r->Some_0.first() == len,
{
}

/// Permissions are changed to those that were asked for, on the range that was asked for; a range
/// that is empty or not made of whole pages is told back as it was asked for.
pub proof fn lemma_protected_as_asked(
    start: usize,
    len: usize,
    bits: u8,
    r: Result<ProtectRequest, VmemProtectError>,
)
    requires
        is_protect_request(start, len, bits, r),
        start + len <= usize::MAX,
    ensures
        r is Ok <==> start % 4096 == 0 && len % 4096 == 0 && len > 0,
        r is Ok ==> {
            &&& r->Ok_0.permissions.bits == bits
            &&& r->Ok_0.range.first() == start
            &&& r->Ok_0.range.last() == start + len
        },
        r is Err ==> r->Err_0->start == start && r->Err_0->end == start + len,
{
}

/// A mapping can be resized exactly if it, and its new size, are not empty and made of whole
/// pages.
pub proof fn lemma_resized_pages(
    old_addr: usize,
    old_size: usize,
    new_size: usize,
    r: Result<PageRange, RemapError>,
)
    requires
        is_remap_range(old_addr, old_size, new_size, r),
        old_addr + old_size <= usize::MAX,
    ensures
        r is Ok <==> old_addr % 4096 == 0 && old_size % 4096 == 0 && new_size % 4096 == 0
            && old_size > 0 && new_size > 0,
        r is Ok ==> r->Ok_0.first() == old_addr && r->Ok_0.last() - r->Ok_0.first() == old_size,
        r is Err ==> r->Err_0 == RemapError::Unaligned,
{
}

/// A mapping is moved only where that is allowed and another is in the way of resizing it in
/// place, and resizing ends well at once only where it was done in place. What moving it came to
/// is what resizing it came to.
pub proof fn lemma_moved_only_if_allowed(
    outcome: ResizeOutcome,
    may_move: bool,
    moved: MoveOutcome,
)
    ensures
        remap_step(outcome, may_move) is Done <==> outcome is Resized,
        remap_step(outcome, may_move) is Move <==> may_move && outcome is RangeOccupied,
        remap_step(outcome, may_move) == RemapStep::Failed(RemapError::OutOfMemory) <==> !may_move
            && outcome is RangeOccupied,
        remap_step(outcome, may_move) == RemapStep::Failed(RemapError::AlreadyUnallocated)
            <==> outcome is NotExist,
        remap_step(outcome, may_move) == RemapStep::Failed(RemapError::AlreadyAllocated)
            <==> outcome is InvalidAddr,
        remap_result(moved) is Ok <==> moved is Moved,
        moved is Moved ==> moved == MoveOutcome::Moved(remap_result(moved)->Ok_0),
        moved is OutOfMemory ==> remap_result(moved)->Err_0 == RemapError::OutOfMemory,
        moved is UnAligned ==> remap_result(moved)->Err_0 == RemapError::Unaligned,
        moved is RemapError ==> moved == MoveOutcome::RemapError(remap_result(moved)->Err_0),
{
}

/// The permissions told for a range are those of every mapping that holds a byte of it: the read,
/// write and execute bits of its flags.
pub proof fn lemma_permissions_are_those_of_mappings(
    ms: Seq<Mapping>,
    start: int,
    end: int,
    r: Option<MemoryRegionPermissions>,
    i: int,
    a: int,
)
    requires
        are_mappings(ms),
        are_permissions_of(ms, start, end, r),
        r is Some,
        start <= a < end,
        0 <= i < ms.len(),
        ms[i].start <= a < ms[i].end,
    ensures
        (ms[i].flags.bits & 7) == r->Some_0.bits,
{
    let bits = r->Some_0.bits;
    assert(has_at(ms, a, bits));
    let j = choose|j: int|
        0 <= j < ms.len() && (#[trigger] ms[j]).start <= a < ms[j].end
            && ms[j].flags.permissions_spec() == bits;
    if i < j {
        assert(ms[i].end <= ms[j].start);
    } else if j < i {
        assert(ms[j].end <= ms[i].start);
    }
    let flags = ms[i].flags.bits;
    lemma_access_bits(flags);
}

/// Permissions are told only for a range that is mapped everywhere.
pub proof fn lemma_permissions_of_mapped_only(
    ms: Seq<Mapping>,
    start: int,
    end: int,
    r: Option<MemoryRegionPermissions>,
    a: int,
)
    requires
        are_permissions_of(ms, start, end, r),
        r is Some,
        start <= a < end,
    ensures
        exists|i: int| 0 <= i < ms.len() && (#[trigger] ms[i]).start <= a < ms[i].end,
{
    assert(has_at(ms, a, r->Some_0.bits));
}

/// The permissions of a range within one mapping are told.
pub proof fn lemma_permissions_of_one_mapping(
    ms: Seq<Mapping>,
    start: int,
    end: int,
    r: Option<MemoryRegionPermissions>,
    i: int,
)
    requires
        are_mappings(ms),
        are_permissions_of(ms, start, end, r),
        start < end,
        0 <= i < ms.len(),
        ms[i].start <= start,
        end <= ms[i].end,
    ensures
        r is Some,
        r->Some_0.bits == (ms[i].flags.bits & 7),
{
    let flags = ms[i].flags.bits;
    lemma_access_bits(flags);
    let bits = ms[i].flags.permissions_spec();
    assert(all_have(ms, start, end, bits)) by {
        assert forall|a: int| start <= a < end implies #[trigger] has_at(ms, a, bits) by {
            assert(ms[i].start <= a < ms[i].end);
        }
    }
    lemma_permissions_are_those_of_mappings(ms, start, end, r, i, start);
}

/// A fault is that of the page, at a multiple of 4096, that holds the address, and no page out of
/// the task's addresses is handled.
pub proof fn lemma_fault_page(
    addr: usize,
    ms: Seq<Mapping>,
    task_min: usize,
    task_max: usize,
    guard_gap: usize,
    r: Result<FaultPlan, PageFaultError>,
)
    requires
        are_mappings(ms),
        fault_plan(addr, ms, task_min, task_max, guard_gap, r),
    ensures
        r is Ok ==> {
            &&& r->Ok_0.page % 4096 == 0
            &&& r->Ok_0.page <= addr < r->Ok_0.page + 4096
            &&& task_min <= r->Ok_0.page < task_max
        },
        addr < task_min || addr - 4096 >= task_max ==> r is Err && r->Err_0
            == PageFaultError::InvalidAddress,
        r is Err && r->Err_0 == PageFaultError::InvalidAddress ==> addr - 4096 < task_min || addr
            >= task_max,
{
    let page = page_floor(addr) as usize;
    if task_min <= page < task_max {
        if exists|k: int| #[trigger] is_above(ms, page, task_max, k) {
            let k = choose|k: int| #[trigger] is_above(ms, page, task_max, k);
            assert(is_above(ms, page, task_max, k));
        }
    }
}

/// A fault at an address that is mapped is handled with the flags of that mapping, and no page is
/// added.
pub proof fn lemma_fault_in_mapping(
    addr: usize,
    ms: Seq<Mapping>,
    task_min: usize,
    task_max: usize,
    guard_gap: usize,
    r: Result<FaultPlan, PageFaultError>,
    k: int,
)
    requires
        are_mappings(ms),
        fault_plan(addr, ms, task_min, task_max, guard_gap, r),
        task_min % 4096 == 0,
        task_min <= addr < task_max,
        0 <= k < ms.len(),
        ms[k].start <= addr < ms[k].end,
    ensures
        r is Ok,
        r->Ok_0.grow is None,
        r->Ok_0.flags == ms[k].flags,
{
    let page = page_floor(addr) as usize;
    assert(page % 4096 == 0 && page <= addr < page + 4096);
    assert(ms[k].start % 4096 == 0 && ms[k].end % 4096 == 0);
    assert(ms[k].start <= page);
    assert(task_min <= page);
    assert(is_above(ms, page, task_max, k)) by {
        assert forall|j: int| 0 <= j < k implies (#[trigger] ms[j]).end <= page by {
            assert(ms[j].end <= ms[k].start);
        }
    }
}

/// A fault at an address that is not mapped is handled only where the next mapping above is a
/// stack: pages are then added from the one at fault up to that stack, over none of the
/// mappings, and the mapping below stays out of reach by the gap, unless it is a stack too that
/// can be accessed.
pub proof fn lemma_fault_below_stack(
    addr: usize,
    ms: Seq<Mapping>,
    task_min: usize,
    task_max: usize,
    guard_gap: usize,
    r: Result<FaultPlan, PageFaultError>,
)
    requires
        are_mappings(ms),
        fault_plan(addr, ms, task_min, task_max, guard_gap, r),
        r is Ok,
        forall|i: int| 0 <= i < ms.len() ==> !((#[trigger] ms[i]).start <= addr < ms[i].end),
    ensures
        r->Ok_0.grow is Some,
        ({
            let grow = r->Ok_0.grow->Some_0;
            &&& grow.first() == r->Ok_0.page
            &&& exists|k: int|
                0 <= k < ms.len() && grow.last() == (#[trigger] ms[k]).start && ms[k].flags
                    == r->Ok_0.flags
            &&& r->Ok_0.flags.bits & 0x100 != 0
            &&& forall|i: int|
                0 <= i < ms.len() ==> (#[trigger] ms[i]).end <= grow.first() || grow.last()
                    <= ms[i].start
            &&& forall|i: int|
                0 <= i < ms.len() && (#[trigger] ms[i]).end <= grow.first() && ms[i].end > task_min
                    && (forall|j: int| i < j < ms.len() ==> (#[trigger] ms[j]).start >= grow.first())
                    ==> grow.first() - ms[i].end >= guard_gap || (ms[i].flags.bits & 0x100 != 0
                    && ms[i].flags.bits & 7 != 0)
        }),
{
    lemma_access_bits(0);
    let page = page_floor(addr) as usize;
    assert(page % 4096 == 0 && page <= addr < page + 4096);
    assert(exists|k: int| #[trigger] is_above(ms, page, task_max, k));
    let k = choose|k: int| #[trigger] is_above(ms, page, task_max, k);
    assert(is_above(ms, page, task_max, k));
    assert(ms[k].start % 4096 == 0 && ms[k].end % 4096 == 0);
    assert(ms[k].start > page);
    let grow = r->Ok_0.grow->Some_0;
    assert forall|i: int| 0 <= i < ms.len() implies (#[trigger] ms[i]).end <= grow.first()
        || grow.last() <= ms[i].start by {
        if i > k {
            assert(ms[k].end <= ms[i].start);
        }
    }
    assert forall|i: int|
        0 <= i < ms.len() && (#[trigger] ms[i]).end <= grow.first() && ms[i].end > task_min && (
        forall|j: int| i < j < ms.len() ==> (#[trigger] ms[j]).start >= grow.first()) implies
        grow.first() - ms[i].end >= guard_gap || (ms[i].flags.bits & 0x100 != 0
            && ms[i].flags.bits & 7 != 0) by {
        assert(is_before(ms, page, task_min, i));
    }
}

/// A stack grows to a page below it where nothing is mapped in between and nothing is mapped
/// below the page.
pub proof fn lemma_stack_grows(
    addr: usize,
    ms: Seq<Mapping>,
    task_min: usize,
    task_max: usize,
    guard_gap: usize,
    r: Result<FaultPlan, PageFaultError>,
)
    requires
        are_mappings(ms),
        fault_plan(addr, ms, task_min, task_max, guard_gap, r),
        task_min % 4096 == 0,
        task_min <= addr,
        ms.len() > 0,
        addr < ms[0].start < task_max,
        ms[0].flags.bits & 0x100 != 0,
    ensures
        r is Ok,
        r->Ok_0.grow is Some,
        r->Ok_0.grow->Some_0.last() == ms[0].start,
{
    let page = page_floor(addr) as usize;
    assert(page % 4096 == 0 && page <= addr < page + 4096);
    assert(task_min <= page);
    assert(is_above(ms, page, task_max, 0));
    assert forall|b: int| !#[trigger] is_before(ms, page, task_min, b) by {
        if is_before(ms, page, task_min, b) && b > 0 {
            assert(ms[0].end <= ms[b].start);
        }
    }
}

/// A fault below mappings none of which is a stack is not handled.
pub proof fn lemma_no_stack_no_growth(
    addr: usize,
    ms: Seq<Mapping>,
    task_min: usize,
    task_max: usize,
    guard_gap: usize,
    r: Result<FaultPlan, PageFaultError>,
)
    requires
        are_mappings(ms),
        fault_plan(addr, ms, task_min, task_max, guard_gap, r),
        forall|i: int| 0 <= i < ms.len() ==> !((#[trigger] ms[i]).start <= addr < ms[i].end),
        forall|i: int| 0 <= i < ms.len() ==> (#[trigger] ms[i]).flags.bits & 0x100 == 0,
    ensures
        r is Err,
        r->Err_0 is NoMapping || r->Err_0 is InvalidAddress,
{
    let page = page_floor(addr) as usize;
    assert(page % 4096 == 0 && page <= addr < page + 4096);
    if task_min <= page < task_max && exists|k: int| #[trigger] is_above(ms, page, task_max, k) {
        let k = choose|k: int| #[trigger] is_above(ms, page, task_max, k);
        assert(is_above(ms, page, task_max, k));
        assert(ms[k].start % 4096 == 0 && ms[k].end % 4096 == 0);
    }
}

} // verus!
