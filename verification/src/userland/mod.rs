//! Running as an ordinary process on Linux.
use crate::bits::lemma_signal_bits;
use crate::linux::errno::Errno;
use crate::linux::mm::ProtFlags;
use crate::mm::MemoryRegionPermissions;
use vstd::prelude::*;
use vstd::string::*;

pub mod laws;
pub mod maps;
pub mod raw_mutex;

verus! {

/// The size of the name of a network interface, with its terminating zero.
pub const IFNAMSIZ: usize = 16;

/// Whether a string can be the name of a network interface: it has room before a terminating zero,
/// and only ASCII characters.
pub open spec fn is_interface_name(name: Seq<char>) -> bool {
    &&& name.len() < IFNAMSIZ
    &&& forall|k: int| 0 <= k < name.len() ==> (#[trigger] name[k]) as u32 <= 127
}

/// The name of a network interface in the form that the kernel takes it.
pub open spec fn interface_name_bytes(name: Seq<char>) -> Seq<i8> {
    Seq::new(
        IFNAMSIZ as nat,
        |k: int|
            if k < name.len() {
                name[k] as u32 as i8
            } else {
                0i8
            },
    )
}

/// The name of a network interface in the form that the kernel takes it, padded with zeros.
pub fn interface_name(name: &str) -> (r: Option<Vec<i8>>)
    ensures
        r is Some <==> is_interface_name(name@),
        r is Some ==> r->Some_0@ == interface_name_bytes(name@),
{
    let chars = crate::text::chars_of(name);
    if chars.len() >= IFNAMSIZ {
        return None;
    }
    let mut out: Vec<i8> = Vec::new();
    let mut k: usize = 0;
    while k < chars.len()
        invariant
            k <= chars.len(),
            chars@ == name@,
            out.len() == k,
            chars.len() < IFNAMSIZ,
            forall|j: int| 0 <= j < k ==> (#[trigger] name@[j]) as u32 <= 127,
            forall|j: int| 0 <= j < k ==> #[trigger] out@[j] == name@[j] as u32 as i8,
        decreases chars.len() - k,
    {
        let c: u32 = chars[k] as u32;
        if c > 127 {
            assert(name@[k as int] as u32 > 127);
            return None;
        }
        out.push(c as i8);
        k = k + 1;
    }
    while out.len() < IFNAMSIZ
        invariant
            chars@ == name@,
            chars.len() <= out.len() <= IFNAMSIZ,
            forall|j: int|
                0 <= j < out.len() ==> #[trigger] out@[j] == if j < name@.len() {
                    name@[j] as u32 as i8
                } else {
                    0i8
                },
        decreases IFNAMSIZ - out.len(),
    {
        out.push(0);
    }
    assert(out@ =~= interface_name_bytes(name@));
    Some(out)
}

/// A span of time in seconds and nanoseconds.
#[derive(Clone, Copy, Debug, PartialEq, Eq, Structural)]
pub struct Timespec {
    pub tv_sec: u64,
    pub tv_nsec: u64,
}

/// A span of time in seconds and nanoseconds.
pub fn timespec_of_nanos(nanos: u128) -> (r: Timespec)
    requires
        nanos / 1_000_000_000 <= i64::MAX,
    ensures
        r.tv_sec * 1_000_000_000 + r.tv_nsec == nanos,
        r.tv_nsec < 1_000_000_000,
{
    let tv_sec: u128 = nanos / 1_000_000_000;
    let tv_nsec: u128 = nanos % 1_000_000_000;
    Timespec { tv_sec: tv_sec as u64, tv_nsec: tv_nsec as u64 }
}

/// The protection that permissions stand for.
pub open spec fn prot_bits(bits: u8) -> u32 {
    (if bits & MemoryRegionPermissions::READ == MemoryRegionPermissions::READ {
        ProtFlags::PROT_READ
    } else {
        0
    }) | (if bits & MemoryRegionPermissions::WRITE == MemoryRegionPermissions::WRITE {
        ProtFlags::PROT_WRITE
    } else {
        0
    }) | (if bits & MemoryRegionPermissions::EXEC == MemoryRegionPermissions::EXEC {
        ProtFlags::PROT_EXEC
    } else {
        0
    })
}

/// The protection that permissions stand for. Shared pages are not supported.
pub fn prot_flags(flags: MemoryRegionPermissions) -> (r: ProtFlags)
    requires
        flags.bits & MemoryRegionPermissions::SHARED != MemoryRegionPermissions::SHARED,
    ensures
        r.bits == prot_bits(flags.bits),
{
    let read: u32 = if flags.bits & MemoryRegionPermissions::READ == MemoryRegionPermissions::READ {
        ProtFlags::PROT_READ
    } else {
        0
    };
    let write: u32 = if flags.bits & MemoryRegionPermissions::WRITE
        == MemoryRegionPermissions::WRITE {
        ProtFlags::PROT_WRITE
    } else {
        0
    };
    let exec: u32 = if flags.bits & MemoryRegionPermissions::EXEC == MemoryRegionPermissions::EXEC {
        ProtFlags::PROT_EXEC
    } else {
        0
    };
    ProtFlags { bits: read | write | exec }
}

pub const MAP_PRIVATE: u32 = 0x2;

pub const MAP_FIXED: u32 = 0x10;

pub const MAP_ANONYMOUS: u32 = 0x20;

pub const MAP_GROWSDOWN: u32 = 0x100;

pub const MAP_POPULATE: u32 = 0x8000;

/// The flags that pages are mapped with.
pub open spec fn mapping_bits(can_grow_down: bool, populate_pages: bool) -> u32 {
    MAP_PRIVATE | MAP_ANONYMOUS | MAP_FIXED | ((if can_grow_down {
        MAP_GROWSDOWN
    } else {
        0
    }) | (if populate_pages {
        MAP_POPULATE
    } else {
        0
    }))
}

/// The flags that pages are mapped with.
pub fn allocate_flags(can_grow_down: bool, populate_pages: bool) -> (r: u32)
    ensures
        r == mapping_bits(can_grow_down, populate_pages),
{
    let grow: u32 = if can_grow_down {
        MAP_GROWSDOWN
    } else {
        0
    };
    let populate: u32 = if populate_pages {
        MAP_POPULATE
    } else {
        0
    };
    MAP_PRIVATE | MAP_ANONYMOUS | MAP_FIXED | (grow | populate)
}

/// The first of a power of two and those above it that is not below a number.
pub open spec fn power_from(n: int, p: int) -> int
    decreases 2 * n - p,
{
    if p >= n || p <= 0 {
        p
    } else {
        power_from(n, 2 * p)
    }
}

/// The smallest power of two that is not below a number.
fn next_power_of_two(n: usize) -> (r: usize)
    requires
        n <= usize::MAX / 2 + 1,
    ensures
        r == power_from(n as int, 1),
        r >= n,
{
    let mut p: usize = 1;
    while p < n
        invariant
            n <= usize::MAX / 2 + 1,
            p >= 1,
            power_from(n as int, p as int) == power_from(n as int, 1),
        decreases 2 * n - p,
    {
        p = p * 2;
    }
    p
}

/// The larger of two numbers.
pub open spec fn larger(a: int, b: int) -> int {
    if a < b {
        b
    } else {
        a
    }
}

/// How much memory to map for an allocation.
pub open spec fn size_to_map(size: int, align: int) -> int {
    larger(power_from(size, 1), 2 * larger(align, 0x1000))
}

/// How much memory to map for an allocation. As mapped memory need not be aligned, twice the
/// alignment is mapped at least, so that a chunk with the alignment can be found in it.
pub fn allocation_size(size: usize, align: usize) -> (r: usize)
    requires
        size <= usize::MAX / 2 + 1,
        align <= usize::MAX / 2,
    ensures
        r == size_to_map(size as int, align as int),
        r >= size,
{
    let wanted: usize = next_power_of_two(size);
    let at_least: usize = if align < 0x1000 {
        0x1000
    } else {
        align
    };
    let doubled: usize = at_least * 2;
    if wanted < doubled {
        doubled
    } else {
        wanted
    }
}

/// The largest error number that a system call returns.
pub const MAX_ERRNO: usize = 4095;

/// Whether the result of a system call is an error.
pub open spec fn is_error(ret: usize) -> bool {
    ret > usize::MAX - MAX_ERRNO
}

/// The error numbers that creating a thread may report.
pub open spec fn is_spawn_errno(errno: int) -> bool {
    errno == Errno::EACCES || errno == Errno::EAGAIN || errno == Errno::EBUSY || errno
        == Errno::EEXIST || errno == Errno::EINVAL || errno == Errno::ENOMEM || errno
        == Errno::ENOSPC || errno == Errno::EPERM
}

/// What creating a thread came to.
pub open spec fn spawn_outcome(ret: usize) -> Option<Result<usize, Errno>> {
    if !is_error(ret) {
        Some(Ok(ret))
    } else if is_spawn_errno(usize::MAX - ret + 1) {
        Some(Err(Errno { number: (usize::MAX - ret + 1) as i32 }))
    } else {
        None
    }
}

/// What creating a thread came to: the new thread, or an error. Errors that are not expected are
/// not told apart, and `None`.
pub fn spawn_result(ret: usize) -> (r: Option<Result<usize, Errno>>)
    ensures
        r == spawn_outcome(ret),
{
    if ret <= usize::MAX - MAX_ERRNO {
        return Some(Ok(ret));
    }
    let number: i32 = (usize::MAX - ret + 1) as i32;
    if number == Errno::EACCES || number == Errno::EAGAIN || number == Errno::EBUSY || number
        == Errno::EEXIST || number == Errno::EINVAL || number == Errno::ENOMEM || number
        == Errno::ENOSPC || number == Errno::EPERM {
        Some(Err(Errno::new(number)))
    } else {
        None
    }
}

/// The signal by which system calls are intercepted.
pub const SIGSYS: u32 = 31;

/// The bit of the signal in a set of signals.
pub const SIGSYS_BIT: u64 = 0x4000_0000;

/// A set of signals without the one by which system calls are intercepted.
pub open spec fn blockable_bits(set: u64) -> u64 {
    set & !SIGSYS_BIT
}

/// The set of signals to block in place of one that is asked for: the signal by which system calls
/// are intercepted is never blocked.
pub fn blockable(set: u64) -> (r: u64)
    ensures
        r == blockable_bits(set),
        r & SIGSYS_BIT == 0,
{
    proof {
        lemma_signal_bits(set, 0);
    }
    set & !SIGSYS_BIT
}

/// What changing the action of a signal comes to.
pub open spec fn sigaction_result(signum: u32, changes_action: bool) -> Result<(), Errno> {
    if signum == SIGSYS && changes_action {
        Err(Errno { number: Errno::EINVAL })
    } else {
        Ok(())
    }
}

/// Whether the action of a signal may be changed: not that of the signal by which system calls are
/// intercepted.
pub fn check_sigaction(signum: u32, changes_action: bool) -> (r: Result<(), Errno>)
    ensures
        r == sigaction_result(signum, changes_action),
{
    if signum == SIGSYS && changes_action {
        // don't allow changing the SIGSYS handler
        return Err(Errno::new(Errno::EINVAL));
    }
    Ok(())
}

} // verus!
