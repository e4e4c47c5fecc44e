//! Memory management system calls: `mmap`, `munmap`, etc.
//!
//! Each call is checked here, and what it asks for handed to the page manager. What the page
//! manager reports is then turned into the result of the call.
use crate::linux::errno::Errno;
use crate::mm;
use crate::mm::{
    checked_page_ceiling, is_page_aligned, page_ceiling, BrkStep, CreatePagesFlags,
    CreateRequest, MappingError, PageKind, PageManager, PAGE_SIZE,
};
use vstd::prelude::*;

verus! {

/// `PROT_*` flags.
#[derive(Clone, Copy, Debug, PartialEq, Eq, Structural)]
pub struct ProtFlags {
    pub bits: u32,
}

impl ProtFlags {
    pub const PROT_NONE: u32 = 0;
    pub const PROT_READ: u32 = 1;
    pub const PROT_WRITE: u32 = 2;
    pub const PROT_EXEC: u32 = 4;
    pub const PROT_READ_WRITE: u32 = 3;
    pub const PROT_READ_EXEC: u32 = 5;
    pub const PROT_READ_WRITE_EXEC: u32 = 7;
}

/// `MAP_*` flags.
#[derive(Clone, Copy, Debug, PartialEq, Eq, Structural)]
pub struct MapFlags {
    pub bits: u32,
}

impl MapFlags {
    pub const MAP_SHARED: u32 = 0x1;
    pub const MAP_PRIVATE: u32 = 0x2;
    pub const MAP_FIXED: u32 = 0x10;
    pub const MAP_ANONYMOUS: u32 = 0x20;
    pub const MAP_POPULATE: u32 = 0x8000;
    pub const MAP_FIXED_NOREPLACE: u32 = 0x100000;

    /// Whether every flag of `other` is set.
    pub open spec fn has(self, other: u32) -> bool {
        self.bits & other == other
    }

    /// Whether every flag of `other` is set.
    pub fn contains(self, other: u32) -> (r: bool)
        ensures
            r == self.has(other),
    {
        self.bits & other == other
    }
}

/// `MREMAP_*` flags.
#[derive(Clone, Copy, Debug, PartialEq, Eq, Structural)]
pub struct MRemapFlags {
    pub bits: u32,
}

impl MRemapFlags {
    pub const MREMAP_MAYMOVE: u32 = 0x1;
    pub const MREMAP_FIXED: u32 = 0x2;
    pub const MREMAP_DONTUNMAP: u32 = 0x4;

    /// Whether every flag of `other` is set.
    pub open spec fn has(self, other: u32) -> bool {
        self.bits & other == other
    }

    /// Whether every flag of `other` is set.
    pub fn contains(self, other: u32) -> (r: bool)
        ensures
            r == self.has(other),
    {
        self.bits & other == other
    }
}

/// Advice for `madvise`.
#[derive(Clone, Copy, Debug, PartialEq, Eq, Structural)]
pub enum MadviseBehavior {
    Normal,
    DontFork,
    DoFork,
    DontNeed,
    Free,
}

/// What kind of pages a protection asks for. Pages with a protection that is not supported are
/// inaccessible.
pub open spec fn mmap_kind(prot: ProtFlags) -> PageKind {
    if prot.bits == ProtFlags::PROT_READ_EXEC {
        PageKind::Executable
    } else if prot.bits == ProtFlags::PROT_READ_WRITE {
        PageKind::Writable
    } else if prot.bits == ProtFlags::PROT_READ {
        PageKind::Readable
    } else {
        PageKind::Inaccessible
    }
}

/// How pages are created for `mmap`.
pub open spec fn mmap_flags(flags: MapFlags, ensure_space_after: bool) -> CreatePagesFlags {
    CreatePagesFlags {
        // MAP_FIXED_NOREPLACE implies MAP_FIXED behavior (exact address, not a hint)
        fixed_addr: flags.has(MapFlags::MAP_FIXED) || flags.has(MapFlags::MAP_FIXED_NOREPLACE),
        noreplace: flags.has(MapFlags::MAP_FIXED_NOREPLACE),
        is_stack: false,
        populate_pages_immediately: flags.has(MapFlags::MAP_POPULATE),
        ensure_space_after,
        map_file: !flags.has(MapFlags::MAP_ANONYMOUS),
        shared: flags.has(MapFlags::MAP_SHARED),
    }
}

/// The pages that `mmap` asks for, unless the address, if one is given, or the length is not
/// positive or no whole number of pages.
pub open spec fn mmap_request(
    suggested_addr: Option<usize>,
    len: usize,
    prot: ProtFlags,
    flags: MapFlags,
    ensure_space_after: bool,
) -> Result<CreateRequest, MappingError> {
    if (suggested_addr is Some ==> suggested_addr->Some_0 > 0 && is_page_aligned(
        suggested_addr->Some_0 as int,
    )) && len > 0 && is_page_aligned(len as int) {
        Ok(
            mm::create_request(
                mmap_kind(prot),
                suggested_addr,
                len,
                mmap_flags(flags, ensure_space_after),
            ),
        )
    } else {
        Err(MappingError::UnAligned)
    }
}

/// The pages that `mmap` asks for. The address, if one is given, and the length must be positive
/// and a whole number of pages.
pub fn do_mmap(
    suggested_addr: Option<usize>,
    len: usize,
    prot: ProtFlags,
    flags: MapFlags,
    ensure_space_after: bool,
) -> (r: Result<CreateRequest, MappingError>)
    ensures
        r == mmap_request(suggested_addr, len, prot, flags, ensure_space_after),
{
    let create_flags = CreatePagesFlags {
        fixed_addr: flags.contains(MapFlags::MAP_FIXED) || flags.contains(
            MapFlags::MAP_FIXED_NOREPLACE,
        ),
        noreplace: flags.contains(MapFlags::MAP_FIXED_NOREPLACE),
        is_stack: false,
        populate_pages_immediately: flags.contains(MapFlags::MAP_POPULATE),
        ensure_space_after,
        map_file: !flags.contains(MapFlags::MAP_ANONYMOUS),
        shared: flags.contains(MapFlags::MAP_SHARED),
    };
    if let Some(addr) = suggested_addr {
        if addr == 0 || addr % PAGE_SIZE != 0 {
            return Err(MappingError::UnAligned);
        }
    }
    if len == 0 || len % PAGE_SIZE != 0 {
        return Err(MappingError::UnAligned);
    }
    if prot.bits == ProtFlags::PROT_READ_EXEC {
        Ok(PageManager::create_executable_pages(suggested_addr, len, create_flags))
    } else if prot.bits == ProtFlags::PROT_READ_WRITE {
        Ok(PageManager::create_writable_pages(suggested_addr, len, create_flags))
    } else if prot.bits == ProtFlags::PROT_READ {
        Ok(PageManager::create_readable_pages(suggested_addr, len, create_flags))
    } else {
        Ok(PageManager::create_inaccessible_pages(suggested_addr, len, create_flags))
    }
}

/// The invalid-argument error.
pub open spec fn einval() -> Errno {
    Errno { number: Errno::EINVAL }
}

/// The length of the pages that `munmap` removes.
pub open spec fn munmap_length(addr: usize, len: usize) -> Result<usize, Errno> {
    if is_page_aligned(addr as int) && len > 0 && addr + page_ceiling(len as int) <= usize::MAX {
        Ok(page_ceiling(len as int) as usize)
    } else {
        Err(einval())
    }
}

/// Handle syscall `munmap`: the length of the pages to remove.
pub fn sys_munmap(addr: usize, len: usize) -> (r: Result<usize, Errno>)
    ensures
        r == munmap_length(addr, len),
{
    proof {
        mm::lemma_page_ceiling(len as int);
    }
    if addr % PAGE_SIZE != 0 {
        return Err(Errno::new(Errno::EINVAL));
    }
    if len == 0 {
        return Err(Errno::new(Errno::EINVAL));
    }
    match checked_page_ceiling(len) {
        Some(aligned_len) => if aligned_len <= usize::MAX - addr {
            Ok(aligned_len)
        } else {
            Err(Errno::new(Errno::EINVAL))
        },
        None => Err(Errno::new(Errno::EINVAL)),
    }
}

/// What came of removing pages.
#[derive(Clone, Copy, Debug, PartialEq, Eq, Structural)]
pub enum UnmapOutcome {
    Unmapped,
    UnAligned,
    /// None of the pages was mapped.
    AlreadyUnallocated,
}

/// The result of `munmap`.
pub open spec fn munmap_outcome(outcome: UnmapOutcome) -> Result<(), Errno> {
    if outcome is UnAligned {
        Err(einval())
    } else {
        Ok(())
    }
}

/// The result of `munmap`. It is not an error if the indicated range does not contain any mapped
/// pages.
pub fn munmap_result(outcome: UnmapOutcome) -> (r: Result<(), Errno>)
    ensures
        r == munmap_outcome(outcome),
{
    match outcome {
        UnmapOutcome::UnAligned => Err(Errno::new(Errno::EINVAL)),
        _ => Ok(()),
    }
}

/// The permissions that `mprotect` asks for, if they are supported.
pub open spec fn mprotect_permissions(prot: ProtFlags) -> Option<u8> {
    if prot.bits == ProtFlags::PROT_READ_EXEC || prot.bits == ProtFlags::PROT_READ_WRITE
        || prot.bits == ProtFlags::PROT_READ || prot.bits == ProtFlags::PROT_NONE || prot.bits
        == ProtFlags::PROT_READ_WRITE_EXEC {
        Some(prot.bits as u8)
    } else {
        None
    }
}

/// The permissions that `mprotect` gives to the pages, or nothing to do.
pub open spec fn mprotect_request(addr: usize, len: usize, prot: ProtFlags) -> Result<
    Option<mm::MemoryRegionPermissions>,
    Errno,
> {
    if !is_page_aligned(addr as int) {
        Err(einval())
    } else if len == 0 {
        Ok(None)
    } else {
        match mprotect_permissions(prot) {
            Some(bits) => Ok(Some(mm::MemoryRegionPermissions { bits })),
            None => Err(einval()),
        }
    }
}

/// Handle syscall `mprotect`: the permissions to give to the pages, or nothing to do.
pub fn sys_mprotect(addr: usize, len: usize, prot: ProtFlags) -> (r: Result<
    Option<mm::MemoryRegionPermissions>,
    Errno,
>)
    ensures
        r == mprotect_request(addr, len, prot),
{
    if addr % PAGE_SIZE != 0 {
        return Err(Errno::new(Errno::EINVAL));
    }
    if len == 0 {
        return Ok(None);
    }
    if prot.bits == ProtFlags::PROT_READ_EXEC || prot.bits == ProtFlags::PROT_READ_WRITE
        || prot.bits == ProtFlags::PROT_READ || prot.bits == ProtFlags::PROT_NONE || prot.bits
        == ProtFlags::PROT_READ_WRITE_EXEC {
        Ok(Some(mm::MemoryRegionPermissions { bits: prot.bits as u8 }))
    } else {
        Err(Errno::new(Errno::EINVAL))
    }
}

/// What `mremap` asks the page manager for.
#[derive(Clone, Copy, Debug, PartialEq, Eq, Structural)]
pub struct RemapRequest {
    pub old_addr: usize,
    pub old_size: usize,
    pub new_size: usize,
    pub may_move: bool,
}

/// The flags that `mremap` knows.
pub const KNOWN_MREMAP_FLAGS: u32 = 0x1 | 0x2 | 0x4;

/// Whether the flags of `mremap` are supported: only that the mapping may move is.
pub open spec fn is_supported_mremap(flags: MRemapFlags) -> bool {
    &&& flags.bits & !KNOWN_MREMAP_FLAGS == 0
    &&& !flags.has(MRemapFlags::MREMAP_FIXED)
    &&& !flags.has(MRemapFlags::MREMAP_DONTUNMAP)
}

/// What `mremap` asks the page manager for.
pub open spec fn mremap_request(
    old_addr: usize,
    old_size: usize,
    new_size: usize,
    flags: MRemapFlags,
) -> Result<RemapRequest, Errno> {
    if is_supported_mremap(flags) && is_page_aligned(old_addr as int) && page_ceiling(
        old_size as int,
    ) <= usize::MAX && page_ceiling(new_size as int) <= usize::MAX && new_size > 0 {
        Ok(
            RemapRequest {
                old_addr,
                old_size: page_ceiling(old_size as int) as usize,
                new_size: page_ceiling(new_size as int) as usize,
                may_move: flags.has(MRemapFlags::MREMAP_MAYMOVE),
            },
        )
    } else {
        Err(einval())
    }
}

/// Handle syscall `mremap`: what to ask the page manager for.
pub fn sys_mremap(old_addr: usize, old_size: usize, new_size: usize, flags: MRemapFlags) -> (r:
    Result<RemapRequest, Errno>)
    ensures
        r == mremap_request(old_addr, old_size, new_size, flags),
{
    proof {
        mm::lemma_page_ceiling(new_size as int);
    }
    if flags.bits & !KNOWN_MREMAP_FLAGS != 0 {
        return Err(Errno::new(Errno::EINVAL));
    }
    if flags.contains(MRemapFlags::MREMAP_FIXED) && !flags.contains(MRemapFlags::MREMAP_MAYMOVE) {
        return Err(Errno::new(Errno::EINVAL));
    }
    // MREMAP_DONTUNMAP is always a move and it does not allow resizing in the process.
    if flags.contains(MRemapFlags::MREMAP_DONTUNMAP) && (!flags.contains(
        MRemapFlags::MREMAP_MAYMOVE,
    ) || old_size != new_size) {
        return Err(Errno::new(Errno::EINVAL));
    }
    if old_addr % PAGE_SIZE != 0 {
        return Err(Errno::new(Errno::EINVAL));
    }
    let (old_size, new_size) = match (checked_page_ceiling(old_size), checked_page_ceiling(
        new_size,
    )) {
        (Some(old_size), Some(new_size)) => (old_size, new_size),
        _ => {
            return Err(Errno::new(Errno::EINVAL));
        },
    };
    if new_size == 0 {
        return Err(Errno::new(Errno::EINVAL));
    }
    // Neither of these is supported yet.
    if flags.contains(MRemapFlags::MREMAP_FIXED) || flags.contains(MRemapFlags::MREMAP_DONTUNMAP) {
        return Err(Errno::new(Errno::EINVAL));
    }
    Ok(
        RemapRequest {
            old_addr,
            old_size,
            new_size,
            may_move: flags.contains(MRemapFlags::MREMAP_MAYMOVE),
        },
    )
}

/// Handle syscall `brk`: what is first done to set the program break.
pub fn sys_brk(pm: &mut PageManager, addr: usize) -> (r: BrkStep)
    requires
        mm::can_set_brk(old(pm).program_break(), addr),
    ensures
        mm::is_brk_step(old(pm).program_break(), addr, final(pm).program_break(), r),
{
    pm.brk(addr)
}

/// What `madvise` asks the page manager for.
#[derive(Clone, Copy, Debug, PartialEq, Eq, Structural)]
pub enum MadviseRequest {
    /// Nothing: the advice is ignored.
    Nothing,
    /// Reset pages, at once or when memory is needed.
    Reset { len: usize, lazily: bool },
}

/// What `madvise` asks the page manager for.
pub open spec fn madvise_request(addr: usize, len: usize, advice: MadviseBehavior) -> Result<
    MadviseRequest,
    Errno,
> {
    if !is_page_aligned(addr as int) {
        Err(einval())
    } else if len == 0 {
        Ok(MadviseRequest::Nothing)
    } else if addr + page_ceiling(len as int) > usize::MAX {
        Err(einval())
    } else {
        Ok(
            match advice {
                MadviseBehavior::DontNeed => MadviseRequest::Reset {
                    len: page_ceiling(len as int) as usize,
                    lazily: false,
                },
                MadviseBehavior::Free => MadviseRequest::Reset {
                    len: page_ceiling(len as int) as usize,
                    lazily: true,
                },
                _ => MadviseRequest::Nothing,
            },
        )
    }
}

/// Handle syscall `madvise`: what to ask the page manager for.
pub fn sys_madvise(addr: usize, len: usize, advice: MadviseBehavior) -> (r: Result<
    MadviseRequest,
    Errno,
>)
    ensures
        r == madvise_request(addr, len, advice),
{
    proof {
        mm::lemma_page_ceiling(len as int);
    }
    if addr % PAGE_SIZE != 0 {
        return Err(Errno::new(Errno::EINVAL));
    }
    if len == 0 {
        return Ok(MadviseRequest::Nothing);
    }
    let aligned_len: usize = match checked_page_ceiling(len) {
        Some(n) => n,
        None => {
            return Err(Errno::new(Errno::EINVAL));
        },
    };
    if aligned_len > usize::MAX - addr {
        return Err(Errno::new(Errno::EINVAL));
    }
    match advice {
        MadviseBehavior::DontNeed => Ok(MadviseRequest::Reset { len: aligned_len, lazily: false }),
        MadviseBehavior::Free => Ok(MadviseRequest::Reset { len: aligned_len, lazily: true }),
        _ => Ok(MadviseRequest::Nothing),
    }
}

/// What `mremap` hands to the page manager is a range of pages that can be resized, unless the old
/// size is zero or the range wraps around.
pub proof fn lemma_mremap_is_page_aligned(old_size: int, new_size: int)
    requires
        old_size >= 0,
        new_size > 0,
    ensures
        is_page_aligned(page_ceiling(old_size)),
        is_page_aligned(page_ceiling(new_size)),
        page_ceiling(new_size) > 0,
{
    mm::lemma_page_ceiling(old_size);
    mm::lemma_page_ceiling(new_size);
}

} // verus!
