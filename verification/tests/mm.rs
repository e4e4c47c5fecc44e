use litebox::linux::errno::Errno;
use litebox::linux::mm::{
    do_mmap, munmap_result, sys_brk, sys_madvise, sys_mprotect, sys_mremap, sys_munmap,
    MRemapFlags, MadviseBehavior, MadviseRequest, MapFlags, ProtFlags, UnmapOutcome,
};
use litebox::linux::user_pointers::{UserPtr, UserPtrMut};
use litebox::mm::{
    checked_page_ceiling, BrkStep, CreatePagesFlags, Mapping, MappingError,
    MemoryRegionPermissions, MoveOutcome, PageFaultError, PageManager, PageRange, RemapError,
    RemapStep, ResizeOutcome, VmFlags, VmemProtectError, VmemUnmapError,
};
use litebox::platform::{RawConstPointer, RawMutPointer};

const NO_FLAGS: CreatePagesFlags = CreatePagesFlags {
    fixed_addr: false,
    noreplace: false,
    is_stack: false,
    populate_pages_immediately: false,
    ensure_space_after: false,
    map_file: false,
    shared: false,
};

#[test]
fn page_boundaries() {
    assert_eq!(checked_page_ceiling(0), Some(0));
    assert_eq!(checked_page_ceiling(1), Some(4096));
    assert_eq!(checked_page_ceiling(4096), Some(4096));
    assert_eq!(checked_page_ceiling(usize::MAX), None);
    assert!(PageRange::new(4096, 4096).is_none());
    assert!(PageRange::new(4096, 8191).is_none());
    let range = PageRange::new(4096, 12288).unwrap();
    assert_eq!((range.start(), range.end(), range.len()), (4096, 12288, 8192));
}

#[test]
fn kinds_of_pages() {
    let r = PageManager::create_executable_pages(None, 4096, NO_FLAGS);
    assert_eq!((r.while_filling.bits, r.permissions.bits), (3, 5));
    let r = PageManager::create_writable_pages(Some(4096), 4096, NO_FLAGS);
    assert_eq!((r.while_filling.bits, r.permissions.bits), (3, 3));
    assert_eq!(r.suggested_address, Some(4096));
    let r = PageManager::create_readable_pages(None, 4096, NO_FLAGS);
    assert_eq!((r.while_filling.bits, r.permissions.bits), (3, 1));
    let r = PageManager::create_inaccessible_pages(None, 4096, NO_FLAGS);
    assert_eq!((r.while_filling.bits, r.permissions.bits), (0, 0));
    assert!(!r.flags.is_stack);
    let r = PageManager::create_stack_pages(None, 4096, NO_FLAGS);
    assert_eq!((r.while_filling.bits, r.permissions.bits), (3, 3));
    assert!(r.flags.is_stack);
}

#[test]
fn program_break() {
    let mut pm = PageManager::new();
    // The first call sets it
    assert_eq!(sys_brk(&mut pm, 0x10010), BrkStep::Done(0x10010));
    assert_eq!(pm.brk(0), BrkStep::Done(0x10010));
    // Within the page nothing is to be created
    assert_eq!(pm.brk(0x10020), BrkStep::Look { start: 0x11000, end: 0x11000 });
    assert_eq!(pm.brk_looked(0x10020, false), Ok(None));
    assert_eq!(pm.brk_created(0x10020, Ok(())), Ok(0x10020));
    // Beyond it, pages are
    assert_eq!(pm.brk(0x12001), BrkStep::Look { start: 0x11000, end: 0x13000 });
    assert_eq!(pm.brk_looked(0x12001, true), Err(MappingError::OutOfMemory));
    let request = pm.brk_looked(0x12001, false).unwrap().unwrap();
    assert_eq!((request.suggested_address, request.length), (Some(0x11000), 0x2000));
    assert!(request.flags.fixed_addr && request.flags.populate_pages_immediately);
    assert_eq!(
        pm.brk_created(0x12001, Err(MappingError::OutOfMemory)),
        Err(MappingError::OutOfMemory)
    );
    assert_eq!(pm.brk(0), BrkStep::Done(0x10020));
    assert_eq!(pm.brk_created(0x12001, Ok(())), Ok(0x12001));
    // Lowering it removes pages
    match pm.brk(0x11000) {
        BrkStep::Remove(range) => assert_eq!((range.start(), range.end()), (0x11000, 0x13000)),
        other => panic!("unexpected {:?}", other),
    }
    assert_eq!(pm.brk_removed(0x11000, false), 0x12001);
    assert_eq!(pm.brk_removed(0x11000, true), 0x11000);
    // Within the page there is no range to remove
    assert_eq!(pm.brk(0x10f00), BrkStep::Failed(MappingError::UnAligned));
    assert_eq!(pm.brk(0x11000), BrkStep::Failed(MappingError::UnAligned));
    assert_eq!(pm.brk(0), BrkStep::Done(0x11000));
}

#[test]
fn program_break_at_the_end_of_memory() {
    let mut pm = PageManager::new();
    assert_eq!(pm.brk(usize::MAX), BrkStep::Done(usize::MAX));
    assert_eq!(pm.brk(0), BrkStep::Done(usize::MAX));
}

#[test]
fn remapping() {
    let range = PageManager::remap_pages(0x1000, 0x1000, 0x2000).unwrap();
    assert_eq!((range.start(), range.end()), (0x1000, 0x2000));
    assert_eq!(PageManager::remap_pages(0x1001, 0x1000, 0x2000), Err(RemapError::Unaligned));
    assert_eq!(PageManager::remap_pages(0x1000, 0, 0x2000), Err(RemapError::Unaligned));
    assert_eq!(PageManager::remap_pages(0x1000, 0x1000, 1), Err(RemapError::Unaligned));

    let f = PageManager::remap_resized;
    assert_eq!(f(ResizeOutcome::Resized, false), RemapStep::Done);
    assert_eq!(f(ResizeOutcome::RangeOccupied, true), RemapStep::Move);
    assert_eq!(
        f(ResizeOutcome::RangeOccupied, false),
        RemapStep::Failed(RemapError::OutOfMemory)
    );
    assert_eq!(
        f(ResizeOutcome::NotExist, true),
        RemapStep::Failed(RemapError::AlreadyUnallocated)
    );
    assert_eq!(
        f(ResizeOutcome::InvalidAddr, true),
        RemapStep::Failed(RemapError::AlreadyAllocated)
    );

    let g = PageManager::remap_moved;
    assert_eq!(g(MoveOutcome::Moved(7)), Ok(7));
    assert_eq!(g(MoveOutcome::OutOfMemory), Err(RemapError::OutOfMemory));
    assert_eq!(g(MoveOutcome::UnAligned), Err(RemapError::Unaligned));
    assert_eq!(
        g(MoveOutcome::RemapError(RemapError::AlreadyAllocated)),
        Err(RemapError::AlreadyAllocated)
    );
}

#[test]
fn removing_and_protecting() {
    assert_eq!(PageManager::remove_pages(0x1000, 0x1000).unwrap().end(), 0x2000);
    assert_eq!(PageManager::remove_pages(0x1000, 0), Err(VmemUnmapError::UnAligned));
    assert_eq!(PageManager::reset_pages(0x1000, 0x1001), Err(VmemUnmapError::UnAligned));
    let r = PageManager::make_pages_writable(0x1000, 0x1000).unwrap();
    assert_eq!((r.range.start(), r.permissions.bits), (0x1000, 3));
    assert_eq!(PageManager::make_pages_executable(0, 0x1000).unwrap().permissions.bits, 5);
    assert_eq!(PageManager::make_pages_readable(0, 0x1000).unwrap().permissions.bits, 1);
    assert_eq!(PageManager::make_pages_inaccessible(0, 0x1000).unwrap().permissions.bits, 0);
    assert_eq!(PageManager::make_pages_rwx(0, 0x1000).unwrap().permissions.bits, 7);
    assert_eq!(
        PageManager::make_pages_rwx(1, 0x1000),
        Err(VmemProtectError::InvalidRange { start: 1, end: 0x1001 })
    );
}

fn mapping(start: usize, end: usize, bits: u32) -> Mapping {
    Mapping { start, end, flags: VmFlags { bits } }
}

#[test]
fn mappings_are_listed() {
    let all = PageManager::mappings(&vec![mapping(0x1000, 0x3000, 1), mapping(0x5000, 0x6000, 3)]);
    assert_eq!(
        all,
        vec![
            (0x1000..0x3000, VmFlags { bits: 1 }),
            (0x5000..0x6000, VmFlags { bits: 3 })
        ]
    );
}

#[test]
fn permissions_of_a_range() {
    let mappings = vec![
        mapping(0x1000, 0x3000, 3),
        mapping(0x3000, 0x4000, 3 | VmFlags::VM_SHARED),
        mapping(0x4000, 0x5000, 1),
        mapping(0x6000, 0x7000, 1),
    ];
    let p = |start, len| PageManager::get_memory_permissions(&mappings, start, len);
    assert_eq!(p(0x1000, 0x3000), Some(MemoryRegionPermissions { bits: 3 }));
    assert_eq!(p(0x2000, 0x1000), Some(MemoryRegionPermissions { bits: 3 }));
    assert_eq!(p(0x4000, 0x1000), Some(MemoryRegionPermissions { bits: 1 }));
    // Different permissions
    assert_eq!(p(0x3000, 0x2000), None);
    // Unmapped pages
    assert_eq!(p(0, 0x2000), None);
    assert_eq!(p(0x4000, 0x3000), None);
    assert_eq!(p(0x6000, 0x2000), None);
    assert_eq!(p(0x8000, 0x1000), None);
}

#[test]
fn page_faults() {
    const MIN: usize = 0x1000;
    const MAX: usize = 0x100000;
    const GAP: usize = 0x2000;
    let stack = VmFlags::VM_GROWSDOWN | 3;
    let handle = |addr: usize, mappings: &Vec<Mapping>| {
        PageManager::handle_page_fault(addr, mappings, MIN, MAX, GAP)
    };
    let mappings = vec![mapping(0x2000, 0x3000, 1), mapping(0x10000, 0x11000, stack)];
    let err = |addr| handle(addr, &mappings).unwrap_err();

    assert_eq!(err(0xfff), PageFaultError::InvalidAddress);
    assert_eq!(err(MAX), PageFaultError::InvalidAddress);
    assert_eq!(err(0x11000), PageFaultError::NoMapping);
    assert_eq!(err(0x1800), PageFaultError::NoMapping);
    // In a mapping
    let plan = handle(0x2abc, &mappings).unwrap();
    assert_eq!((plan.page, plan.grow, plan.flags.bits), (0x2000, None, 1));
    // Below a stack
    let plan = handle(0x5abc, &mappings).unwrap();
    let grow = plan.grow.unwrap();
    assert_eq!((plan.page, grow.start(), grow.end()), (0x5000, 0x5000, 0x10000));
    // Too close to what is below it
    assert_eq!(err(0x4fff), PageFaultError::AllocationFailed);
    // Unless that is a stack too
    let stacks = vec![mapping(0x2000, 0x3000, stack), mapping(0x10000, 0x11000, stack)];
    assert!(handle(0x3000, &stacks).unwrap().grow.is_some());
    // A mapping that holds the address is not in the way of itself
    assert!(handle(0x2000, &stacks).unwrap().grow.is_none());

    assert_eq!(PageManager::page_fault_access(true), Err(PageFaultError::AccessError));
    assert_eq!(PageManager::page_fault_access(false), Ok(()));
}

const EINVAL: Errno = Errno { number: 22 };

#[test]
fn mmap() {
    let map = |addr, len, prot: u32, flags: u32| {
        do_mmap(addr, len, ProtFlags { bits: prot }, MapFlags { bits: flags }, false)
    };
    let r = map(None, 4096, ProtFlags::PROT_READ_EXEC, MapFlags::MAP_ANONYMOUS).unwrap();
    assert_eq!((r.while_filling.bits, r.permissions.bits), (3, 5));
    assert_eq!(r.flags, NO_FLAGS);
    let r = map(Some(4096), 4096, 0, MapFlags::MAP_FIXED_NOREPLACE).unwrap();
    assert!(r.flags.fixed_addr && r.flags.noreplace && r.flags.map_file);
    let r = map(Some(4096), 4096, 0, MapFlags::MAP_FIXED | MapFlags::MAP_SHARED).unwrap();
    assert!(r.flags.fixed_addr && !r.flags.noreplace && r.flags.shared);
    assert_eq!(map(Some(1), 4096, 1, 0), Err(MappingError::UnAligned));
    assert_eq!(map(Some(0), 4096, 1, 0), Err(MappingError::UnAligned));
    assert_eq!(map(None, 0, 1, 0), Err(MappingError::UnAligned));
    assert_eq!(map(None, 4097, 1, 0), Err(MappingError::UnAligned));
}

#[test]
fn munmap() {
    assert_eq!(sys_munmap(4096, 1), Ok(4096));
    assert_eq!(sys_munmap(4097, 1), Err(EINVAL));
    assert_eq!(sys_munmap(4096, 0), Err(EINVAL));
    assert_eq!(sys_munmap(4096, usize::MAX), Err(EINVAL));
    assert_eq!(sys_munmap(8192, usize::MAX - 8191), Err(EINVAL));
    assert_eq!(munmap_result(UnmapOutcome::Unmapped), Ok(()));
    assert_eq!(munmap_result(UnmapOutcome::AlreadyUnallocated), Ok(()));
    assert_eq!(munmap_result(UnmapOutcome::UnAligned), Err(EINVAL));
}

#[test]
fn mprotect() {
    let protect = |addr, len, bits| sys_mprotect(addr, len, ProtFlags { bits });
    assert_eq!(protect(4096, 1, 7), Ok(Some(MemoryRegionPermissions { bits: 7 })));
    assert_eq!(protect(4096, 1, 0), Ok(Some(MemoryRegionPermissions { bits: 0 })));
    assert_eq!(protect(4096, 0, 2), Ok(None));
    assert_eq!(protect(4096, 1, 2), Err(EINVAL));
    assert_eq!(protect(1, 1, 1), Err(EINVAL));
}

#[test]
fn mremap() {
    let remap = |addr, old, new, bits| sys_mremap(addr, old, new, MRemapFlags { bits });
    let r = remap(4096, 1, 5000, MRemapFlags::MREMAP_MAYMOVE).unwrap();
    assert_eq!((r.old_size, r.new_size, r.may_move), (4096, 8192, true));
    assert!(!remap(4096, 0, 1, 0).unwrap().may_move);
    assert_eq!(remap(4096, 1, 0, 0), Err(EINVAL));
    assert_eq!(remap(1, 1, 1, 0), Err(EINVAL));
    assert_eq!(remap(4096, 1, 1, 8), Err(EINVAL));
    assert_eq!(remap(4096, 1, 1, MRemapFlags::MREMAP_FIXED), Err(EINVAL));
    assert_eq!(remap(4096, usize::MAX, 1, 0), Err(EINVAL));
    assert_eq!(remap(4096, 1, usize::MAX, 0), Err(EINVAL));
}

#[test]
fn madvise() {
    assert_eq!(sys_madvise(4096, 1, MadviseBehavior::Normal), Ok(MadviseRequest::Nothing));
    assert_eq!(
        sys_madvise(4096, 1, MadviseBehavior::DontNeed),
        Ok(MadviseRequest::Reset { len: 4096, lazily: false })
    );
    assert_eq!(
        sys_madvise(4096, 1, MadviseBehavior::Free),
        Ok(MadviseRequest::Reset { len: 4096, lazily: true })
    );
    assert_eq!(sys_madvise(4096, 0, MadviseBehavior::Free), Ok(MadviseRequest::Nothing));
    assert_eq!(sys_madvise(1, 0, MadviseBehavior::Free), Err(EINVAL));
    assert_eq!(sys_madvise(4096, usize::MAX - 4095, MadviseBehavior::Free), Err(EINVAL));
}

#[test]
fn user_pointers_keep_their_addresses() {
    let p: UserPtr<u8> = UserPtr::from_usize(0x1234);
    assert!(!p.is_null());
    assert_eq!(p.cast::<u64>().as_usize(), 0x1234);
    let q: UserPtrMut<u8> = UserPtrMut::from_usize(0);
    assert!(q.is_null());
    assert_eq!(q.cast::<u64>().as_usize(), 0);
}

/// A pointer to a memory in which each byte is its own address, and nothing else can be written.
#[derive(Clone, Copy)]
struct Counting(usize);

impl RawConstPointer<u8> for Counting {
    fn from_usize(addr: usize) -> Self {
        Counting(addr)
    }

    fn as_usize(&self) -> usize {
        self.0
    }

    fn read_at_offset(self, count: isize) -> Option<u8> {
        u8::try_from(self.0.checked_add_signed(count)?).ok()
    }

    fn to_owned_slice(self, len: usize) -> Option<Vec<u8>> {
        (0..len).map(|i| self.read_at_offset(i as isize)).collect()
    }

    fn to_cstring(self) -> Option<Vec<u8>> {
        None
    }
}

/// Memory that holds a string at one address, and nothing else.
struct Text(usize);

impl RawConstPointer<i8> for Text {
    fn from_usize(addr: usize) -> Self {
        Text(addr)
    }

    fn as_usize(&self) -> usize {
        self.0
    }

    fn read_at_offset(self, _: isize) -> Option<i8> {
        None
    }

    fn to_owned_slice(self, _: usize) -> Option<Vec<i8>> {
        None
    }

    fn to_cstring(self) -> Option<Vec<u8>> {
        (self.0 == 0x10).then_some(b"/bin/sh".to_vec())
    }
}

#[test]
fn strings_are_read_through_the_platform() {
    assert_eq!(UserPtr::<i8>::from_usize(0x10).to_cstring::<Text>(), Some(b"/bin/sh".to_vec()));
    assert_eq!(UserPtr::<i8>::from_usize(0x11).to_cstring::<Text>(), None);
}

impl RawMutPointer<u8> for Counting {
    fn write_at_offset(self, count: isize, value: u8) -> Option<()> {
        (self.read_at_offset(count)? == value).then_some(())
    }

    fn copy_from_slice(self, start_offset: usize, buf: &[u8]) -> Option<()> {
        self.write_slice_at_offset(start_offset as isize, buf)
    }

    fn write_slice_at_offset(self, count: isize, values: &[u8]) -> Option<()> {
        for (i, v) in values.iter().enumerate() {
            self.write_at_offset(count + i as isize, *v)?;
        }
        Some(())
    }
}

#[test]
fn user_memory_is_accessed_through_the_platform() {
    let p: UserPtr<u8> = UserPtr::from_usize(100);
    assert_eq!(p.read_at_offset::<Counting>(-3), Some(97));
    assert_eq!(p.read_at_offset::<Counting>(200), None);
    assert_eq!(p.to_owned_slice::<Counting>(3), Some(vec![100, 101, 102]));
    assert_eq!(p.to_owned_slice::<Counting>(300), None);
    assert_eq!(p.to_platform_ptr::<Counting>().0, 100);
    let q: UserPtrMut<u8> = UserPtrMut::from_platform_ptr(&Counting(7));
    assert_eq!(q.as_usize(), 7);
    assert_eq!(q.read_at_offset::<Counting>(1), Some(8));
    assert_eq!(q.write_at_offset::<Counting>(1, 8), Some(()));
    assert_eq!(q.write_at_offset::<Counting>(1, 9), None);
    assert_eq!(q.write_slice_at_offset::<Counting>(0, &[7, 8, 9]), Some(()));
    assert_eq!(q.write_slice_at_offset::<Counting>(0, &[7, 9]), None);
    assert_eq!(q.copy_from_slice::<Counting>(2, &[9, 10]), Some(()));
    assert_eq!(q.copy_from_slice::<Counting>(2, &[9, 9]), None);
}
