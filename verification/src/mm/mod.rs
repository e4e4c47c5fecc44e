//! Memory management related functionality.
//!
//! The page manager decides what is to be done with the mappings of a process, and what came of
//! it. The mappings themselves are kept elsewhere.
pub mod laws;

use vstd::prelude::*;

verus! {

/// The size of a page.
pub const PAGE_SIZE: usize = 4096;

/// Access permissions of pages.
#[derive(Clone, Copy, Debug, PartialEq, Eq, Structural)]
pub struct MemoryRegionPermissions {
    pub bits: u8,
}

impl MemoryRegionPermissions {
    pub const READ: u8 = 1;
    pub const WRITE: u8 = 2;
    pub const EXEC: u8 = 4;
    pub const SHARED: u8 = 8;
}

/// Flags of a mapping.
#[derive(Clone, Copy, Debug, PartialEq, Eq, Structural)]
pub struct VmFlags {
    pub bits: u32,
}

impl VmFlags {
    pub const VM_READ: u32 = 0x1;
    pub const VM_WRITE: u32 = 0x2;
    pub const VM_EXEC: u32 = 0x4;
    pub const VM_SHARED: u32 = 0x8;
    /// The mapping is a stack, which grows downwards.
    pub const VM_GROWSDOWN: u32 = 0x100;
    /// Any access.
    pub const VM_ACCESS_FLAGS: u32 = 0x1 | 0x2 | 0x4;

    /// The permissions of a mapping with these flags.
    pub open spec fn permissions_spec(&self) -> u8 {
        (self.bits & VmFlags::VM_ACCESS_FLAGS) as u8
    }

    /// The permissions of a mapping with these flags.
    pub fn permissions(&self) -> (r: u8)
        ensures
            r == self.permissions_spec(),
    {
        let bits: u32 = self.bits;
        assert(bits & (0x1u32 | 0x2 | 0x4) <= 7) by (bit_vector);
        (self.bits & VmFlags::VM_ACCESS_FLAGS) as u8
    }
}

/// Options for creating pages.
#[derive(Clone, Copy, Debug, PartialEq, Eq, Structural)]
pub struct CreatePagesFlags {
    /// Use the suggested address as it is.
    pub fixed_addr: bool,
    /// Fail rather than replace mappings at a fixed address.
    pub noreplace: bool,
    /// The pages are for a stack.
    pub is_stack: bool,
    pub populate_pages_immediately: bool,
    pub ensure_space_after: bool,
    /// The pages are backed by a file.
    pub map_file: bool,
    pub shared: bool,
}

/// Possible errors from creating a mapping.
#[derive(Clone, Copy, Debug, PartialEq, Eq, Structural)]
pub enum MappingError {
    /// An address or a length is not aligned to pages.
    UnAligned,
    OutOfMemory,
    /// Anything else that creating pages reported.
    Other,
}

/// Possible errors from changing the size of a mapping.
#[derive(Clone, Copy, Debug, PartialEq, Eq, Structural)]
pub enum RemapError {
    Unaligned,
    OutOfMemory,
    AlreadyUnallocated,
    AlreadyAllocated,
}

/// Possible errors from handling a page fault.
#[derive(Clone, Copy, Debug, PartialEq, Eq, Structural)]
pub enum PageFaultError {
    /// The address is not one that a task can have.
    InvalidAddress,
    /// Nothing is mapped at the address.
    NoMapping,
    /// The stack cannot grow to the address.
    AllocationFailed,
    /// The mapping does not allow the access.
    AccessError,
}

/// Whether an address or a length is a whole number of pages.
pub open spec fn is_page_aligned(n: int) -> bool {
    n % PAGE_SIZE as int == 0
}

/// A range of pages, which is not empty.
#[derive(Clone, Copy, Debug, PartialEq, Eq, Structural)]
pub struct PageRange {
    start: usize,
    end: usize,
}

impl PageRange {
    /// Where the range starts.
    pub closed spec fn first(&self) -> usize {
        self.start
    }

    /// Where the range ends.
    pub closed spec fn last(&self) -> usize {
        self.end
    }

    /// A range is made of whole pages.
    pub open spec fn wf(&self) -> bool {
        &&& self.first() < self.last()
        &&& is_page_aligned(self.first() as int)
        &&& is_page_aligned(self.last() as int)
    }

    /// A range, if it is made of at least one page and of whole pages only.
    pub fn new(start: usize, end: usize) -> (r: Option<PageRange>)
        ensures
            r is Some <==> start < end && is_page_aligned(start as int) && is_page_aligned(
                end as int,
            ),
            r is Some ==> r->Some_0.first() == start && r->Some_0.last() == end && r->Some_0.wf(),
    {
        if start < end && start % PAGE_SIZE == 0 && end % PAGE_SIZE == 0 {
            Some(PageRange { start, end })
        } else {
            None
        }
    }

    /// Where the range starts.
    pub fn start(&self) -> (r: usize)
        ensures
            r == self.first(),
    {
        self.start
    }

    /// Where the range ends.
    pub fn end(&self) -> (r: usize)
        ensures
            r == self.last(),
    {
        self.end
    }

    /// The length of the range.
    pub fn len(&self) -> (r: usize)
        requires
            self.wf(),
        ensures
            r == self.last() - self.first(),
    {
        self.end - self.start
    }
}

/// The page boundary at or after an address.
pub open spec fn page_ceiling(n: int) -> int {
    if n % PAGE_SIZE as int == 0 {
        n
    } else {
        n - n % PAGE_SIZE as int + PAGE_SIZE
    }
}

/// The page boundary at or after an address, if there is one.
pub fn checked_page_ceiling(n: usize) -> (r: Option<usize>)
    ensures
        r == if page_ceiling(n as int) <= usize::MAX {
            Some(page_ceiling(n as int) as usize)
        } else {
            None
        },
{
    let over: usize = n % PAGE_SIZE;
    if over == 0 {
        return Some(n);
    }
    let base: usize = n - over;
    if base <= usize::MAX - PAGE_SIZE {
        Some(base + PAGE_SIZE)
    } else {
        None
    }
}

/// The page boundary at or after an address is the first one.
pub proof fn lemma_page_ceiling(n: int)
    requires
        n >= 0,
    ensures
        is_page_aligned(page_ceiling(n)),
        n <= page_ceiling(n) < n + PAGE_SIZE,
        forall|m: int| m >= n && is_page_aligned(m) ==> page_ceiling(n) <= m,
{
    let size = PAGE_SIZE as int;
    if n % size != 0 {
        let q = n / size;
        assert(n == q * size + n % size) by (nonlinear_arith)
            requires
                q == n / size,
                size == 4096,
        ;
        assert((q * size + size) % size == 0) by (nonlinear_arith)
            requires
                size == 4096,
        ;
        assert forall|m: int| m >= n && is_page_aligned(m) implies page_ceiling(n) <= m by {
            let k = m / size;
            assert(m == k * size) by (nonlinear_arith)
                requires
                    k == m / size,
                    m % size == 0,
                    size == 4096,
            ;
            assert(k >= q + 1) by (nonlinear_arith)
                requires
                    k * size >= q * size + n % size,
                    n % size > 0,
                    size == 4096,
            ;
            assert(k * size >= (q + 1) * size) by (nonlinear_arith)
                requires
                    k >= q + 1,
                    size == 4096,
            ;
            assert((q + 1) * size == q * size + size) by (nonlinear_arith);
        }
    }
}

/// What kind of pages to create.
#[derive(Clone, Copy, Debug, PartialEq, Eq, Structural)]
pub enum PageKind {
    Executable,
    Writable,
    Readable,
    Inaccessible,
    Stack,
}

/// Pages to be created.
#[derive(Clone, Copy, Debug, PartialEq, Eq, Structural)]
pub struct CreateRequest {
    pub suggested_address: Option<usize>,
    pub length: usize,
    pub flags: CreatePagesFlags,
    /// Permissions while the pages are filled.
    pub while_filling: MemoryRegionPermissions,
    /// Permissions from then on.
    pub permissions: MemoryRegionPermissions,
}

/// The permissions of a kind of pages, while they are filled and from then on.
pub open spec fn kind_permissions(kind: PageKind) -> (u8, u8) {
    match kind {
        PageKind::Executable => (
            MemoryRegionPermissions::READ | MemoryRegionPermissions::WRITE,
            MemoryRegionPermissions::READ | MemoryRegionPermissions::EXEC,
        ),
        PageKind::Writable => (
            MemoryRegionPermissions::READ | MemoryRegionPermissions::WRITE,
            MemoryRegionPermissions::READ | MemoryRegionPermissions::WRITE,
        ),
        PageKind::Readable => (
            MemoryRegionPermissions::READ | MemoryRegionPermissions::WRITE,
            MemoryRegionPermissions::READ,
        ),
        PageKind::Inaccessible => (0, 0),
        PageKind::Stack => (
            MemoryRegionPermissions::READ | MemoryRegionPermissions::WRITE,
            MemoryRegionPermissions::READ | MemoryRegionPermissions::WRITE,
        ),
    }
}

/// The pages to create, of a kind.
pub open spec fn create_request(
    kind: PageKind,
    suggested_address: Option<usize>,
    length: usize,
    flags: CreatePagesFlags,
) -> CreateRequest {
    CreateRequest {
        suggested_address,
        length,
        flags: CreatePagesFlags { is_stack: flags.is_stack || kind is Stack, ..flags },
        while_filling: MemoryRegionPermissions { bits: kind_permissions(kind).0 },
        permissions: MemoryRegionPermissions { bits: kind_permissions(kind).1 },
    }
}

/// What to do to set the program break.
#[derive(Clone, Copy, Debug, PartialEq, Eq, Structural)]
pub enum BrkStep {
    /// Nothing more: this is the program break.
    Done(usize),
    /// Remove mappings, and say whether that was done.
    Remove(PageRange),
    /// Look whether anything is mapped in a range, which may be empty.
    Look { start: usize, end: usize },
    /// Nothing: the program break cannot be set.
    Failed(MappingError),
}

/// What is first done to set the program break. There is no range of pages to remove where the
/// break is lowered, or set again, within its page.
pub open spec fn is_brk_step(current: usize, brk: usize, after: usize, r: BrkStep) -> bool {
    let old_end = page_ceiling(current as int) as usize;
    let new_end = page_ceiling(brk as int) as usize;
    if current == 0 {
        r == BrkStep::Done(brk) && after == brk
    } else if brk == 0 {
        r == BrkStep::Done(current) && after == current
    } else {
        &&& after == current
        &&& if current >= brk && new_end == old_end {
            r == BrkStep::Failed(MappingError::UnAligned)
        } else if current >= brk {
            r is Remove && r->Remove_0.first() == new_end && r->Remove_0.last() == old_end
                && r->Remove_0.wf()
        } else {
            r == BrkStep::Look { start: old_end, end: new_end }
        }
    }
}

/// Whether the program break can be set: where both the old and the new one are given, there are
/// page boundaries after them.
pub open spec fn can_set_brk(current: usize, brk: usize) -> bool {
    current != 0 && brk != 0 ==> page_ceiling(current as int) <= usize::MAX && page_ceiling(
        brk as int,
    ) <= usize::MAX
}

/// What to do to change the size of a mapping, after resizing it in place was tried.
#[derive(Clone, Copy, Debug, PartialEq, Eq, Structural)]
pub enum RemapStep {
    Done,
    /// Move the mapping elsewhere.
    Move,
    Failed(RemapError),
}

/// What came of resizing a mapping in place.
#[derive(Clone, Copy, Debug, PartialEq, Eq, Structural)]
pub enum ResizeOutcome {
    Resized,
    /// Another mapping is in the way.
    RangeOccupied,
    /// There is no such mapping.
    NotExist,
    InvalidAddr,
}

/// What came of moving a mapping.
#[derive(Clone, Copy, Debug, PartialEq, Eq, Structural)]
pub enum MoveOutcome {
    Moved(usize),
    OutOfMemory,
    UnAligned,
    RemapError(RemapError),
}

/// A mapping: where it starts, where it ends, and its flags.
#[derive(Clone, Copy, Debug, PartialEq, Eq, Structural)]
pub struct Mapping {
    pub start: usize,
    pub end: usize,
    pub flags: VmFlags,
}

/// Whether mappings are those of a process: they are not empty, are made of whole pages, do not
/// overlap, and are listed from the lowest address up.
pub open spec fn are_mappings(ms: Seq<Mapping>) -> bool {
    &&& forall|i: int|
        0 <= i < ms.len() ==> (#[trigger] ms[i]).start < ms[i].end && is_page_aligned(
            ms[i].start as int,
        ) && is_page_aligned(ms[i].end as int)
    &&& forall|i: int, j: int|
        0 <= i < j < ms.len() ==> (#[trigger] ms[i]).end <= (#[trigger] ms[j]).start
}

/// Whether an address is mapped, with permissions.
pub open spec fn has_at(ms: Seq<Mapping>, a: int, bits: u8) -> bool {
    exists|i: int|
        0 <= i < ms.len() && (#[trigger] ms[i]).start <= a < ms[i].end
            && ms[i].flags.permissions_spec() == bits
}

/// Whether all of a range is mapped, with the same permissions.
pub open spec fn all_have(ms: Seq<Mapping>, start: int, end: int, bits: u8) -> bool {
    forall|a: int| start <= a < end ==> #[trigger] has_at(ms, a, bits)
}

/// Whether a range is the one that starts at an address and has a length, or none is made of at
/// least one page and of whole pages only.
pub open spec fn are_pages(start: usize, len: usize, r: Option<PageRange>) -> bool {
    &&& r is Some <==> len > 0 && is_page_aligned(start as int) && is_page_aligned(
        start + len,
    )
    &&& r is Some ==> r->Some_0.wf() && r->Some_0.first() == start && r->Some_0.last() == start + len
}

/// Possible errors from removing or resetting pages.
#[derive(Clone, Copy, Debug, PartialEq, Eq, Structural)]
pub enum VmemUnmapError {
    /// The range is not made of whole pages, or empty.
    UnAligned,
}

/// Possible errors from changing the permissions of pages.
#[derive(Clone, Copy, Debug, PartialEq, Eq, Structural)]
pub enum VmemProtectError {
    /// The range is not made of whole pages, or empty.
    InvalidRange { start: usize, end: usize },
}

/// Pages that are to be given other permissions.
#[derive(Clone, Copy, Debug, PartialEq, Eq, Structural)]
pub struct ProtectRequest {
    pub range: PageRange,
    pub permissions: MemoryRegionPermissions,
}

/// What is asked for to change permissions.
pub open spec fn is_protect_request(
    start: usize,
    len: usize,
    bits: u8,
    r: Result<ProtectRequest, VmemProtectError>,
) -> bool {
    match r {
        Ok(q) => are_pages(start, len, Some(q.range)) && q.permissions.bits == bits,
        Err(e) => are_pages(start, len, None) && e == (VmemProtectError::InvalidRange {
            start,
            end: (start + len) as usize,
        }),
    }
}

/// What to do about a page fault.
#[derive(Clone, Copy, Debug, PartialEq, Eq, Structural)]
pub struct FaultPlan {
    /// The page at fault.
    pub page: usize,
    /// Pages to add to the mapping above, a stack, if any.
    pub grow: Option<PageRange>,
    /// The flags of the mapping.
    pub flags: VmFlags,
}

/// The page of an address.
pub open spec fn page_floor(addr: usize) -> int {
    addr - addr % PAGE_SIZE
}

/// Whether a mapping is the first that lies above a page, or holds it.
pub open spec fn is_above(ms: Seq<Mapping>, page: usize, task_max: usize, k: int) -> bool {
    &&& 0 <= k < ms.len()
    &&& ms[k].end > page
    &&& ms[k].start < task_max
    &&& forall|j: int| 0 <= j < k ==> (#[trigger] ms[j]).end <= page
}

/// Whether a mapping is the last that starts before a page.
pub open spec fn is_before(ms: Seq<Mapping>, page: usize, task_min: usize, k: int) -> bool {
    &&& 0 <= k < ms.len()
    &&& ms[k].start < page
    &&& ms[k].end > task_min
    &&& forall|j: int| k < j < ms.len() ==> (#[trigger] ms[j]).start >= page
}

/// Whether a mapping is out of the way of a stack that grows down to a page: it is a stack too,
/// with some access, or far enough away.
pub open spec fn keeps_gap(m: Mapping, page: usize, guard_gap: usize) -> bool {
    (m.flags.bits & VmFlags::VM_GROWSDOWN != 0 && m.flags.bits & VmFlags::VM_ACCESS_FLAGS != 0)
        || page - m.end >= guard_gap
}

/// What to do about a page fault.
pub open spec fn fault_plan(
    addr: usize,
    ms: Seq<Mapping>,
    task_min: usize,
    task_max: usize,
    guard_gap: usize,
    r: Result<FaultPlan, PageFaultError>,
) -> bool {
    let page = page_floor(addr) as usize;
    if !(task_min <= page < task_max) {
        r is Err && r->Err_0 == PageFaultError::InvalidAddress
    } else {
        &&& (forall|k: int| !#[trigger] is_above(ms, page, task_max, k)) ==> r is Err && r->Err_0
            == PageFaultError::NoMapping
        &&& forall|k: int| #[trigger]
            is_above(ms, page, task_max, k) ==> {
                let m = ms[k];
                if page >= m.start {
                    r is Ok && r->Ok_0 == (FaultPlan { page, grow: None, flags: m.flags })
                } else if m.flags.bits & VmFlags::VM_GROWSDOWN == 0 {
                    r is Err && r->Err_0 == PageFaultError::NoMapping
                } else if exists|b: int| #[trigger]
                    is_before(ms, page, task_min, b) && !keeps_gap(ms[b], page, guard_gap) {
                    r is Err && r->Err_0 == PageFaultError::AllocationFailed
                } else {
                    &&& r is Ok
                    &&& r->Ok_0.page == page
                    &&& r->Ok_0.flags == m.flags
                    &&& r->Ok_0.grow is Some
                    &&& r->Ok_0.grow->Some_0.first() == page
                    &&& r->Ok_0.grow->Some_0.last() == m.start
                    &&& r->Ok_0.grow->Some_0.wf()
                }
            }
    }
}

/// The program break after pages were removed or created for another one, or that failed.
pub open spec fn break_after(current: usize, brk: usize, done: bool) -> usize {
    if done {
        brk
    } else {
        current
    }
}

/// What to do to raise the program break, after it was looked whether anything is mapped there.
pub open spec fn brk_looked_request(current: usize, brk: usize, occupied: bool) -> Result<
    Option<CreateRequest>,
    MappingError,
> {
    let old_end = page_ceiling(current as int) as usize;
    let new_end = page_ceiling(brk as int) as usize;
    if occupied {
        Err(MappingError::OutOfMemory)
    } else if old_end == new_end {
        Ok(None)
    } else {
        Ok(Some(brk_request(old_end, new_end)))
    }
}

/// The range of pages to resize: it, and the new size, are not empty and made of whole pages.
pub open spec fn is_remap_range(
    old_addr: usize,
    old_size: usize,
    new_size: usize,
    r: Result<PageRange, RemapError>,
) -> bool {
    &&& r is Ok <==> is_page_aligned(old_addr as int) && is_page_aligned(
        (old_addr + old_size) as int,
    ) && old_size > 0 && new_size > 0 && is_page_aligned(new_size as int)
    &&& r is Ok ==> r->Ok_0.wf() && r->Ok_0.first() == old_addr && r->Ok_0.last() == old_addr
        + old_size
    &&& r is Err ==> r->Err_0 == RemapError::Unaligned
}

/// What to do after resizing a mapping in place was tried.
pub open spec fn remap_step(outcome: ResizeOutcome, may_move: bool) -> RemapStep {
    match outcome {
        ResizeOutcome::Resized => RemapStep::Done,
        ResizeOutcome::RangeOccupied => if may_move {
            RemapStep::Move
        } else {
            RemapStep::Failed(RemapError::OutOfMemory)
        },
        ResizeOutcome::NotExist => RemapStep::Failed(RemapError::AlreadyUnallocated),
        ResizeOutcome::InvalidAddr => RemapStep::Failed(RemapError::AlreadyAllocated),
    }
}

/// What came of changing the size of a mapping, after it was moved.
pub open spec fn remap_result(outcome: MoveOutcome) -> Result<usize, RemapError> {
    match outcome {
        MoveOutcome::Moved(addr) => Ok(addr),
        MoveOutcome::OutOfMemory => Err(RemapError::OutOfMemory),
        MoveOutcome::UnAligned => Err(RemapError::Unaligned),
        MoveOutcome::RemapError(e) => Err(e),
    }
}

/// The permissions that all of a range has, if it has the same everywhere.
pub open spec fn are_permissions_of(
    ms: Seq<Mapping>,
    start: int,
    end: int,
    r: Option<MemoryRegionPermissions>,
) -> bool {
    match r {
        Some(p) => all_have(ms, start, end, p.bits),
        None => forall|bits: u8| !#[trigger] all_have(ms, start, end, bits),
    }
}

/// A page manager to support `mmap`, `munmap`, and etc.
#[derive(Debug)]
pub struct PageManager {
    brk: usize,
}

impl PageManager {
    /// The program break.
    pub closed spec fn program_break(&self) -> usize {
        self.brk
    }

    /// Create a new `PageManager` instance, without a program break.
    pub fn new() -> (r: Self)
        ensures
            r.program_break() == 0,
    {
        PageManager { brk: 0 }
    }

    /// The pages to create, of a kind.
    fn create_pages(
        kind: PageKind,
        suggested_address: Option<usize>,
        length: usize,
        flags: CreatePagesFlags,
    ) -> (r: CreateRequest)
        ensures
            r == create_request(kind, suggested_address, length, flags),
    {
        let read: u8 = MemoryRegionPermissions::READ;
        let write: u8 = MemoryRegionPermissions::READ | MemoryRegionPermissions::WRITE;
        let exec: u8 = MemoryRegionPermissions::READ | MemoryRegionPermissions::EXEC;
        let (while_filling, permissions): (u8, u8) = match kind {
            PageKind::Executable => (write, exec),
            PageKind::Writable => (write, write),
            PageKind::Readable => (write, read),
            PageKind::Inaccessible => (0, 0),
            PageKind::Stack => (write, write),
        };
        let is_stack = flags.is_stack || kind == PageKind::Stack;
        CreateRequest {
            suggested_address,
            length,
            flags: CreatePagesFlags { is_stack, ..flags },
            while_filling: MemoryRegionPermissions { bits: while_filling },
            permissions: MemoryRegionPermissions { bits: permissions },
        }
    }

    /// Create readable and executable pages. They can be written while they are filled.
    ///
    /// `suggested_address` is the hint address for where to create the pages if it is not `None`.
    /// Otherwise, an available memory region is to be chosen.
    pub fn create_executable_pages(
        suggested_address: Option<usize>,
        length: usize,
        flags: CreatePagesFlags,
    ) -> (r: CreateRequest)
        ensures
            r == create_request(PageKind::Executable, suggested_address, length, flags),
    {
        Self::create_pages(PageKind::Executable, suggested_address, length, flags)
    }

    /// Create readable and writable pages.
    ///
    /// `suggested_address` is the hint address for where to create the pages if it is not `None`.
    /// Otherwise, an available memory region is to be chosen.
    pub fn create_writable_pages(
        suggested_address: Option<usize>,
        length: usize,
        flags: CreatePagesFlags,
    ) -> (r: CreateRequest)
        ensures
            r == create_request(PageKind::Writable, suggested_address, length, flags),
    {
        Self::create_pages(PageKind::Writable, suggested_address, length, flags)
    }

    /// Create read-only pages. They can be written while they are filled.
    ///
    /// `suggested_address` is the hint address for where to create the pages if it is not `None`.
    /// Otherwise, an available memory region is to be chosen.
    pub fn create_readable_pages(
        suggested_address: Option<usize>,
        length: usize,
        flags: CreatePagesFlags,
    ) -> (r: CreateRequest)
        ensures
            r == create_request(PageKind::Readable, suggested_address, length, flags),
    {
        Self::create_pages(PageKind::Readable, suggested_address, length, flags)
    }

    /// Create inaccessible pages.
    ///
    /// `suggested_address` is the hint address for where to create the pages if it is not `None`.
    /// Otherwise, an available memory region is to be chosen.
    pub fn create_inaccessible_pages(
        suggested_address: Option<usize>,
        length: usize,
        flags: CreatePagesFlags,
    ) -> (r: CreateRequest)
        ensures
            r == create_request(PageKind::Inaccessible, suggested_address, length, flags),
    {
        Self::create_pages(PageKind::Inaccessible, suggested_address, length, flags)
    }

    /// Create stack pages.
    ///
    /// `suggested_address` is the hint address for where to create the pages if it is not `None`.
    /// Otherwise, an available memory region is to be chosen.
    pub fn create_stack_pages(
        suggested_address: Option<usize>,
        length: usize,
        flags: CreatePagesFlags,
    ) -> (r: CreateRequest)
        ensures
            r == create_request(PageKind::Stack, suggested_address, length, flags),
    {
        Self::create_pages(PageKind::Stack, suggested_address, length, flags)
    }

    /// Set the program break to the given address.
    ///
    /// Increasing the program break has the effect of allocating memory to the process; decreasing
    /// the break deallocates memory. Calling `brk` with 0 can be used to find the current location
    /// of the program break.
    ///
    /// Note the initial program break is set to zero and the first call to `brk` would set it to
    /// the given address, which is usually the end of the data segment.
    pub fn brk(&mut self, brk: usize) -> (r: BrkStep)
        requires
            can_set_brk(old(self).program_break(), brk),
        ensures
            is_brk_step(
                old(self).program_break(),
                brk,
                final(self).program_break(),
                r,
            ),
    {
        if self.brk == 0 {
            // The first call should be made by the loader to set the initial brk to the end of the
            // data segment.
            self.brk = brk;
            return BrkStep::Done(brk);
        }
        if brk == 0 {
            return BrkStep::Done(self.brk);
        }
        proof {
            lemma_page_ceiling(self.brk as int);
            lemma_page_ceiling(brk as int);
        }
        match (checked_page_ceiling(self.brk), checked_page_ceiling(brk)) {
            (Some(old_end), Some(new_end)) => {
                if self.brk >= brk {
                    // Shrink the memory region
                    match PageRange::new(new_end, old_end) {
                        Some(range) => BrkStep::Remove(range),
                        None => BrkStep::Failed(MappingError::UnAligned),
                    }
                } else {
                    BrkStep::Look { start: old_end, end: new_end }
                }
            },
            _ => BrkStep::Done(self.brk),
        }
    }

    /// Go on lowering the program break, after mappings were to be removed. The program break
    /// stays if they were not.
    pub fn brk_removed(&mut self, brk: usize, removed: bool) -> (r: usize)
        ensures
            final(self).program_break() == break_after(old(self).program_break(), brk, removed),
            r == final(self).program_break(),
    {
        if removed {
            self.brk = brk;
        }
        self.brk
    }

    /// Go on raising the program break, after it was looked whether anything is in the way: the
    /// pages to create, if any.
    pub fn brk_looked(&self, brk: usize, occupied: bool) -> (r: Result<
        Option<CreateRequest>,
        MappingError,
    >)
        requires
            self.program_break() < brk,
            page_ceiling(brk as int) <= usize::MAX,
        ensures
            r == brk_looked_request(self.program_break(), brk, occupied),
    {
        if occupied {
            return Err(MappingError::OutOfMemory);
        }
        proof {
            lemma_page_ceiling(self.brk as int);
            lemma_page_ceiling(brk as int);
        }
        match (checked_page_ceiling(self.brk), checked_page_ceiling(brk)) {
            (Some(old_end), Some(new_end)) => match PageRange::new(old_end, new_end) {
                Some(range) => Ok(
                    Some(
                        Self::create_pages(
                            PageKind::Writable,
                            Some(range.start()),
                            range.len(),
                            CreatePagesFlags {
                                fixed_addr: true,
                                noreplace: false,
                                is_stack: false,
                                populate_pages_immediately: true,
                                ensure_space_after: false,
                                map_file: false,
                                shared: false,
                            },
                        ),
                    ),
                ),
                None => Ok(None),
            },
            _ => Ok(None),
        }
    }

    /// Finish raising the program break, after the pages, if any, were created.
    pub fn brk_created(&mut self, brk: usize, created: Result<(), MappingError>) -> (r: Result<
        usize,
        MappingError,
    >)
        ensures
            final(self).program_break() == break_after(
                old(self).program_break(),
                brk,
                created is Ok,
            ),
            created is Ok ==> r == Ok::<usize, MappingError>(final(self).program_break()),
            created is Err ==> r == Err::<usize, MappingError>(created->Err_0),
    {
        match created {
            Ok(()) => {
                self.brk = brk;
                Ok(brk)
            },
            Err(e) => Err(e),
        }
    }

    /// Expands (or shrinks) an existing memory mapping: the mapping, to be resized in place.
    pub fn remap_pages(old_addr: usize, old_size: usize, new_size: usize) -> (r: Result<
        PageRange,
        RemapError,
    >)
        requires
            old_addr + old_size <= usize::MAX,
        ensures
            is_remap_range(old_addr, old_size, new_size, r),
    {
        match PageRange::new(old_addr, old_addr + old_size) {
            Some(range) => if new_size > 0 && new_size % PAGE_SIZE == 0 {
                Ok(range)
            } else {
                Err(RemapError::Unaligned)
            },
            None => Err(RemapError::Unaligned),
        }
    }

    /// Go on changing the size of a mapping, after resizing it in place was tried.
    pub fn remap_resized(outcome: ResizeOutcome, may_move: bool) -> (r: RemapStep)
        ensures
            r == remap_step(outcome, may_move),
    {
        match outcome {
            ResizeOutcome::Resized => RemapStep::Done,
            ResizeOutcome::RangeOccupied => if may_move {
                RemapStep::Move
            } else {
                RemapStep::Failed(RemapError::OutOfMemory)
            },
            ResizeOutcome::NotExist => RemapStep::Failed(RemapError::AlreadyUnallocated),
            ResizeOutcome::InvalidAddr => RemapStep::Failed(RemapError::AlreadyAllocated),
        }
    }

    /// Finish changing the size of a mapping, after it was to be moved: its new address.
    pub fn remap_moved(outcome: MoveOutcome) -> (r: Result<usize, RemapError>)
        ensures
            r == remap_result(outcome),
    {
        match outcome {
            MoveOutcome::Moved(addr) => Ok(addr),
            MoveOutcome::OutOfMemory => Err(RemapError::OutOfMemory),
            MoveOutcome::UnAligned => Err(RemapError::Unaligned),
            MoveOutcome::RemapError(e) => Err(e),
        }
    }

    /// The range of pages that starts at an address and has a length, if there is one.
    fn pages(start: usize, len: usize) -> (r: Option<PageRange>)
        requires
            start + len <= usize::MAX,
        ensures
            are_pages(start, len, r),
    {
        PageRange::new(start, start + len)
    }

    /// Remove pages from the mapping: the pages to remove.
    pub fn remove_pages(start: usize, len: usize) -> (r: Result<PageRange, VmemUnmapError>)
        requires
            start + len <= usize::MAX,
        ensures
            are_pages(start, len, r.ok()),
            r is Err ==> r->Err_0 == VmemUnmapError::UnAligned,
    {
        match Self::pages(start, len) {
            Some(range) => Ok(range),
            None => Err(VmemUnmapError::UnAligned),
        }
    }

    /// Reset pages without removing its mapping: the pages to reset.
    ///
    /// The memory region remains mapped, but its contents are to be invalidated.
    pub fn reset_pages(start: usize, len: usize) -> (r: Result<PageRange, VmemUnmapError>)
        requires
            start + len <= usize::MAX,
        ensures
            are_pages(start, len, r.ok()),
            r is Err ==> r->Err_0 == VmemUnmapError::UnAligned,
    {
        match Self::pages(start, len) {
            Some(range) => Ok(range),
            None => Err(VmemUnmapError::UnAligned),
        }
    }

    /// The pages to be given other permissions.
    fn change_page_permissions(start: usize, len: usize, bits: u8) -> (r: Result<
        ProtectRequest,
        VmemProtectError,
    >)
        requires
            start + len <= usize::MAX,
        ensures
            is_protect_request(start, len, bits, r),
    {
        match Self::pages(start, len) {
            Some(range) => Ok(
                ProtectRequest { range, permissions: MemoryRegionPermissions { bits } },
            ),
            None => Err(VmemProtectError::InvalidRange { start, end: start + len }),
        }
    }

    /// Make pages readable and writable.
    pub fn make_pages_writable(start: usize, len: usize) -> (r: Result<
        ProtectRequest,
        VmemProtectError,
    >)
        requires
            start + len <= usize::MAX,
        ensures
            is_protect_request(start, len, MemoryRegionPermissions::READ | MemoryRegionPermissions::WRITE, r),
    {
        let bits: u8 = MemoryRegionPermissions::READ | MemoryRegionPermissions::WRITE;
        Self::change_page_permissions(start, len, bits)
    }

    /// Make pages readable and executable.
    pub fn make_pages_executable(start: usize, len: usize) -> (r: Result<
        ProtectRequest,
        VmemProtectError,
    >)
        requires
            start + len <= usize::MAX,
        ensures
            is_protect_request(start, len, MemoryRegionPermissions::READ | MemoryRegionPermissions::EXEC, r),
    {
        let bits: u8 = MemoryRegionPermissions::READ | MemoryRegionPermissions::EXEC;
        Self::change_page_permissions(start, len, bits)
    }

    /// Make pages readable only.
    pub fn make_pages_readable(start: usize, len: usize) -> (r: Result<
        ProtectRequest,
        VmemProtectError,
    >)
        requires
            start + len <= usize::MAX,
        ensures
            is_protect_request(start, len, MemoryRegionPermissions::READ, r),
    {
        let bits: u8 = MemoryRegionPermissions::READ;
        Self::change_page_permissions(start, len, bits)
    }

    /// Make pages inaccessible.
    pub fn make_pages_inaccessible(start: usize, len: usize) -> (r: Result<
        ProtectRequest,
        VmemProtectError,
    >)
        requires
            start + len <= usize::MAX,
        ensures
            is_protect_request(start, len, 0, r),
    {
        let bits: u8 = 0;
        Self::change_page_permissions(start, len, bits)
    }

    /// Make pages readable, writable and executable.
    pub fn make_pages_rwx(start: usize, len: usize) -> (r: Result<
        ProtectRequest,
        VmemProtectError,
    >)
        requires
            start + len <= usize::MAX,
        ensures
            is_protect_request(start, len, MemoryRegionPermissions::READ | MemoryRegionPermissions::WRITE | MemoryRegionPermissions::EXEC, r),
    {
        let bits: u8 = MemoryRegionPermissions::READ | MemoryRegionPermissions::WRITE | MemoryRegionPermissions::EXEC;
        Self::change_page_permissions(start, len, bits)
    }

    /// Returns all mappings in a vector, each as the addresses that it spans and its flags.
    pub fn mappings(mappings: &Vec<Mapping>) -> (r: Vec<(core::ops::Range<usize>, VmFlags)>)
        ensures
            r@.len() == mappings@.len(),
            forall|i: int|
                0 <= i < r@.len() ==> (#[trigger] r@[i]).0.start == mappings@[i].start
                    && r@[i].0.end == mappings@[i].end && r@[i].1 == mappings@[i].flags,
    {
        let mut all: Vec<(core::ops::Range<usize>, VmFlags)> = Vec::new();
        let mut i: usize = 0;
        while i < mappings.len()
            invariant
                i <= mappings.len(),
                all@.len() == i,
                forall|k: int|
                    0 <= k < i ==> (#[trigger] all@[k]).0.start == mappings@[k].start
                        && all@[k].0.end == mappings@[k].end && all@[k].1 == mappings@[k].flags,
            decreases mappings.len() - i,
        {
            let m: Mapping = mappings[i];
            all.push((m.start..m.end, m.flags));
            i = i + 1;
        }
        all
    }

    /// Get the memory permissions of a given address range.
    ///
    /// There are any only if the range is valid. It is invalid if it contains unmapped pages, or
    /// pages with different permissions.
    pub fn get_memory_permissions(mappings: &Vec<Mapping>, start: usize, len: usize) -> (r: Option<
        MemoryRegionPermissions,
    >)
        requires
            are_mappings(mappings@),
            start + len <= usize::MAX,
            is_page_aligned(start as int),
            is_page_aligned(len as int),
            len > 0,
        ensures
            are_permissions_of(mappings@, start as int, start + len, r),
    {
        let end: usize = start + len;
        let mut covered: usize = start;
        let mut found: Option<u8> = None;
        let mut i: usize = 0;
        while i < mappings.len()
            invariant
                are_mappings(mappings@),
                i <= mappings.len(),
                start < end,
                end == start + len,
                start <= covered < end,
                found is None <==> covered == start,
                found is Some ==> all_have(mappings@, start as int, covered as int, found->Some_0),
                forall|j: int| 0 <= j < i ==> #[trigger] mappings@[j].end <= covered,
            decreases mappings.len() - i,
        {
            let m: Mapping = mappings[i];
            if m.end > covered {
                if m.start > covered {
                    proof {
                        lemma_gap(mappings@, start as int, end as int, covered as int, i as int);
                    }
                    return None;
                }
                let bits: u8 = m.flags.permissions();
                proof {
                    assert(has_at(mappings@, covered as int, bits)) by {
                        assert(mappings@[i as int] == m);
                    }
                }
                match found {
                    Some(b) => {
                        if b != bits {
                            proof {
                                assert(has_at(mappings@, start as int, b));
                                lemma_differing(
                                    mappings@,
                                    start as int,
                                    end as int,
                                    start as int,
                                    b,
                                    covered as int,
                                    bits,
                                );
                            }
                            return None;
                        }
                    },
                    None => {},
                }
                proof {
                    let upper = if m.end < end {
                        m.end as int
                    } else {
                        end as int
                    };
                    assert forall|a: int| start <= a < upper implies #[trigger] has_at(
                        mappings@,
                        a,
                        bits,
                    ) by {
                        if a >= covered {
                            assert(mappings@[i as int] == m);
                        }
                    }
                }
                found = Some(bits);
                if m.end >= end {
                    return Some(MemoryRegionPermissions { bits });
                }
                covered = m.end;
            }
            i += 1;
        }
        proof {
            lemma_gap(mappings@, start as int, end as int, covered as int, i as int);
        }
        None
    }

    /// Handle a page fault at the given address: what to do about it.
    ///
    /// Where a stack is the next mapping above the page, it grows down to it.
    pub fn handle_page_fault(
        fault_addr: usize,
        mappings: &Vec<Mapping>,
        task_min: usize,
        task_max: usize,
        guard_gap: usize,
    ) -> (r: Result<FaultPlan, PageFaultError>)
        requires
            are_mappings(mappings@),
        ensures
            fault_plan(fault_addr, mappings@, task_min, task_max, guard_gap, r),
    {
        let page: usize = fault_addr - fault_addr % PAGE_SIZE;
        proof {
            let a = fault_addr as int;
            let size = PAGE_SIZE as int;
            assert((a - a % size) % size == 0) by (nonlinear_arith)
                requires
                    size == 4096,
            ;
        }
        if !(task_min <= page && page < task_max) {
            return Err(PageFaultError::InvalidAddress);
        }
        // Find the range closest to the fault address
        let mut i: usize = 0;
        while i < mappings.len() && mappings[i].end <= page
            invariant
                are_mappings(mappings@),
                i <= mappings.len(),
                forall|j: int| 0 <= j < i ==> #[trigger] mappings@[j].end <= page,
            decreases mappings.len() - i,
        {
            i += 1;
        }
        if i == mappings.len() || mappings[i].start >= task_max {
            proof {
                assert forall|k: int| !#[trigger] is_above(mappings@, page, task_max, k) by {
                    if is_above(mappings@, page, task_max, k) {
                        if k > i {
                            assert(mappings@[i as int].end <= mappings@[k].start);
                        }
                    }
                }
            }
            return Err(PageFaultError::NoMapping);
        }
        let m: Mapping = mappings[i];
        proof {
            assert(is_above(mappings@, page, task_max, i as int));
        }
        if page >= m.start {
            return Ok(FaultPlan { page, grow: None, flags: m.flags });
        }
        // address is out of range, test if it is next to a stack

        if m.flags.bits & VmFlags::VM_GROWSDOWN == 0 {
            return Err(PageFaultError::NoMapping);
        }
        // Enforce gap between stack and other preceding non-stack mappings.

        if i > 0 && mappings[i - 1].end > task_min {
            let b: Mapping = mappings[i - 1];
            proof {
                assert(is_before(mappings@, page, task_min, i - 1)) by {
                    assert forall|j: int| i - 1 < j < mappings@.len() implies #[trigger] mappings@[j].start
                        >= page by {
                        if j > i {
                            assert(mappings@[i as int].end <= mappings@[j].start);
                        }
                    }
                }
            }
            if !((b.flags.bits & VmFlags::VM_GROWSDOWN != 0 && b.flags.bits
                & VmFlags::VM_ACCESS_FLAGS != 0) || page - b.end >= guard_gap) {
                return Err(PageFaultError::AllocationFailed);
            }
        } else {
            proof {
                assert forall|k: int| !#[trigger] is_before(mappings@, page, task_min, k) by {
                    if is_before(mappings@, page, task_min, k) {
                        if k < i - 1 {
                            assert(mappings@[k].end <= mappings@[i - 1].start);
                        } else if k > i {
                            assert(mappings@[i as int].end <= mappings@[k].start);
                        }
                    }
                }
            }
        }
        Ok(FaultPlan { page, grow: PageRange::new(page, m.start), flags: m.flags })
    }

    /// Go on handling a page fault, after the mapping was looked at: whether the fault is handed
    /// on to the platform.
    pub fn page_fault_access(access_error: bool) -> (r: Result<(), PageFaultError>)
        ensures
            r == if access_error {
                Err(PageFaultError::AccessError)
            } else {
                Ok(())
            },
    {
        if access_error {
            Err(PageFaultError::AccessError)
        } else {
            Ok(())
        }
    }
}

/// Two bytes of a range differ in their permissions, so not all of it has the same.
proof fn lemma_differing(ms: Seq<Mapping>, start: int, end: int, a: int, p: u8, b: int, q: u8)
    requires
        are_mappings(ms),
        start <= a < end,
        start <= b < end,
        has_at(ms, a, p),
        has_at(ms, b, q),
        p != q,
    ensures
        forall|bits: u8| !#[trigger] all_have(ms, start, end, bits),
{
    assert forall|bits: u8| !#[trigger] all_have(ms, start, end, bits) by {
        if all_have(ms, start, end, bits) {
            assert(has_at(ms, a, bits));
            assert(has_at(ms, b, bits));
            lemma_one_mapping(ms, a, p, bits);
            lemma_one_mapping(ms, b, q, bits);
        }
    }
}

/// An address has the permissions of one mapping only.
pub proof fn lemma_one_mapping(ms: Seq<Mapping>, a: int, p: u8, q: u8)
    requires
        are_mappings(ms),
        has_at(ms, a, p),
        has_at(ms, a, q),
    ensures
        p == q,
{
    let i = choose|i: int|
        0 <= i < ms.len() && (#[trigger] ms[i]).start <= a < ms[i].end
            && ms[i].flags.permissions_spec() == p;
    let j = choose|j: int|
        0 <= j < ms.len() && (#[trigger] ms[j]).start <= a < ms[j].end
            && ms[j].flags.permissions_spec() == q;
    if i < j {
        assert(ms[i].end <= ms[j].start);
    } else if j < i {
        assert(ms[j].end <= ms[i].start);
    }
}

/// Where an address is not mapped, not all of a range has the same permissions.
proof fn lemma_gap(ms: Seq<Mapping>, start: int, end: int, a: int, i: int)
    requires
        are_mappings(ms),
        start <= a < end,
        0 <= i <= ms.len(),
        forall|j: int| 0 <= j < i ==> (#[trigger] ms[j]).end <= a,
        i < ms.len() ==> ms[i].start > a,
    ensures
        forall|bits: u8| !#[trigger] all_have(ms, start, end, bits),
{
    assert forall|bits: u8| !#[trigger] all_have(ms, start, end, bits) by {
        if all_have(ms, start, end, bits) {
            assert(has_at(ms, a, bits));
            let k = choose|k: int|
                0 <= k < ms.len() && (#[trigger] ms[k]).start <= a < ms[k].end
                    && ms[k].flags.permissions_spec() == bits;
            if k > i {
                assert(ms[i].end <= ms[k].start);
            }
        }
    }
}

/// The pages that raising the program break creates.
pub open spec fn brk_request(old_end: usize, new_end: usize) -> CreateRequest {
    CreateRequest {
        suggested_address: Some(old_end),
        length: (new_end - old_end) as usize,
        flags: CreatePagesFlags {
            fixed_addr: true,
            noreplace: false,
            is_stack: false,
            populate_pages_immediately: true,
            ensure_space_after: false,
            map_file: false,
            shared: false,
        },
        while_filling: MemoryRegionPermissions { bits: kind_permissions(PageKind::Writable).0 },
        permissions: MemoryRegionPermissions { bits: kind_permissions(PageKind::Writable).1 },
    }
}

/// No kind of pages is both writable and executable, at any time.
pub proof fn lemma_never_writable_and_executable(kind: PageKind)
    ensures
        ({
            let (filling, after) = kind_permissions(kind);
            &&& !(filling & MemoryRegionPermissions::WRITE != 0 && filling
                & MemoryRegionPermissions::EXEC != 0)
            &&& !(after & MemoryRegionPermissions::WRITE != 0 && after
                & MemoryRegionPermissions::EXEC != 0)
        }),
{
    assert((1u8 | 2) & 4 == 0 && (1u8 | 4) & 2 == 0 && 1u8 & 4 == 0 && 0u8 & 4 == 0) by (bit_vector);
}

} // verus!
