//! File-system related functionality.
use vstd::prelude::*;

pub mod archive_laws;
pub mod backend;
pub mod composer;
pub mod composer_laws;
pub mod device_laws;
pub mod devices;
pub mod either;
pub mod errors;
pub mod in_mem;
pub mod inode_allocator;
pub mod laws;
pub mod names;
pub mod nine_p;
pub mod tar_ro;

verus! {

/// `S_I*` permission bits.
#[derive(Clone, Copy, Debug, PartialEq, Eq, Hash, Structural)]
pub struct Mode {
    pub bits: u32,
}

impl Mode {
    /// User (file owner) has read, write, and execute permission.
    pub const RWXU: u32 = 0o00700;
    /// User has read permission.
    pub const RUSR: u32 = 0o00400;
    /// User has write permission.
    pub const WUSR: u32 = 0o00200;
    /// User has execute permission.
    pub const XUSR: u32 = 0o00100;
    /// Group has read, write, and execute permission.
    pub const RWXG: u32 = 0o00070;
    /// Group has read permission.
    pub const RGRP: u32 = 0o00040;
    /// Group has write permission.
    pub const WGRP: u32 = 0o00020;
    /// Group has execute permission.
    pub const XGRP: u32 = 0o00010;
    /// Others have read, write, and execute permission.
    pub const RWXO: u32 = 0o00007;
    /// Others have read permission.
    pub const ROTH: u32 = 0o00004;
    /// Others have write permission.
    pub const WOTH: u32 = 0o00002;
    /// Others have execute permission.
    pub const XOTH: u32 = 0o00001;
    /// Set-user-ID bit.
    pub const SUID: u32 = 0o0004000;
    /// Set-group-ID bit.
    pub const SGID: u32 = 0o0002000;
    /// Sticky bit.
    pub const SVTX: u32 = 0o0001000;

    /// Exactly the given bits; none is unknown.
    pub fn from_bits_truncate(bits: u32) -> (r: Mode)
        ensures
            r == (Mode { bits }),
    {
        Mode { bits }
    }

    /// No permission at all.
    pub fn empty() -> (r: Mode)
        ensures
            r == (Mode { bits: 0 }),
    {
        Mode { bits: 0 }
    }

    /// Whether every bit of `other` is set.
    pub fn contains(self, other: u32) -> (r: bool)
        ensures
            r == (self.bits & other == other),
    {
        self.bits & other == other
    }
}

/// Read, write and execute for the owner, read and execute for everybody else.
pub const DIRECTORY_MODE: u32 = 0o755;

/// `O_*` constants for use with open.
#[derive(Clone, Copy, Debug, PartialEq, Eq, Hash, Structural)]
pub struct OFlags {
    pub bits: u32,
}

impl OFlags {
    /// Read-only.
    pub const RDONLY: u32 = 0x0;
    /// Write-only.
    pub const WRONLY: u32 = 0x1;
    /// Read/write, a flag distinct from `RDONLY | WRONLY`.
    pub const RDWR: u32 = 0x2;
    /// Append mode.
    pub const APPEND: u32 = 0x400;
    /// Signal-driven I/O.
    pub const ASYNC: u32 = 0x2000;
    /// Close-on-exec flag.
    pub const CLOEXEC: u32 = 0x80000;
    /// If the path does not exist, create it as a regular file.
    pub const CREAT: u32 = 0x40;
    /// Try to minimize cache effects of I/O for this file.
    pub const DIRECT: u32 = 0x4000;
    /// Fail if not a directory.
    pub const DIRECTORY: u32 = 0x10000;
    /// Synchronized I/O data integrity.
    pub const DSYNC: u32 = 0x1000;
    /// Exclusive use.
    pub const EXCL: u32 = 0x80;
    /// Allow large file support.
    pub const LARGEFILE: u32 = 0x8000;
    /// Do not update access time.
    pub const NOATIME: u32 = 0x40000;
    /// Do not assign controlling terminal.
    pub const NOCTTY: u32 = 0x100;
    /// Fail if the path does not point to a regular file.
    pub const NOFOLLOW: u32 = 0x20000;
    /// Non-blocking mode (same as `NONBLOCK`).
    pub const NDELAY: u32 = 0x800;
    /// Non-blocking mode (same as `NDELAY`).
    pub const NONBLOCK: u32 = 0x800;
    /// Open a file descriptor for path resolution only.
    pub const PATH: u32 = 0x200000;
    /// Synchronized I/O file integrity.
    pub const SYNC: u32 = 0x101000;
    /// Create an unnamed temporary file.
    pub const TMPFILE: u32 = 0x410000;
    /// Truncate the file to zero length.
    pub const TRUNC: u32 = 0x200;
    /// All file status flags and access modes.
    pub const STATUS_FLAGS_MASK: u32 = 0x400 | 0x800 | 0x1000 | 0x2000 | 0x4000 | 0x8000 | 0x40000
        | 0x101000 | 0x200000 | 0x0 | 0x1 | 0x2;

    /// Whether every bit of `other` is set.
    pub fn contains(self, other: u32) -> (r: bool)
        ensures
            r == self.has(other),
    {
        self.bits & other == other
    }

    /// Whether any bit of `other` is set.
    pub fn intersects(self, other: u32) -> (r: bool)
        ensures
            r == self.meets(other),
    {
        self.bits & other != 0
    }

    /// The flags without the bits of `other`.
    pub fn without(self, other: u32) -> (r: OFlags)
        ensures
            r == (OFlags { bits: self.bits & !other }),
    {
        OFlags { bits: self.bits & !other }
    }

    /// Whether every bit of `other` is set.
    pub open spec fn has(self, other: u32) -> bool {
        self.bits & other == other
    }

    /// Whether any bit of `other` is set.
    pub open spec fn meets(self, other: u32) -> bool {
        self.bits & other != 0
    }
}

/// Types of files on a file-system.
#[non_exhaustive]
#[derive(Debug, Clone, Copy, PartialEq, Eq, Structural)]
pub enum FileType {
    RegularFile,
    Directory,
    CharacterDevice,
}

/// What an offset given to seek is relative to.
#[derive(Debug, Copy, Clone, PartialEq, Eq, Structural)]
pub enum SeekWhence {
    /// The file offset is set to `offset` bytes.
    RelativeToBeginning,
    /// The file offset is set to its current location plus `offset` bytes.
    RelativeToCurrentOffset,
    /// The file offset is set to the size of the file plus `offset` bytes.
    RelativeToEnd,
}

/// The status of a file or directory.
#[non_exhaustive]
#[derive(Debug, Clone, Copy, PartialEq, Eq, Structural)]
pub struct FileStatus {
    /// File type.
    pub file_type: FileType,
    /// Permissions for the file.
    pub mode: Mode,
    /// Size of the file, in bytes.
    pub size: usize,
    /// Owner of the file.
    pub owner: UserInfo,
    /// Information about this particular node.
    pub node_info: NodeInfo,
    /// Block size for file system I/O.
    pub blksize: usize,
}

/// User information.
#[derive(Clone, Copy, Debug, PartialEq, Eq, Structural)]
pub struct UserInfo {
    /// User ID for the owner.
    pub user: u16,
    /// Group ID for the owner.
    pub group: u16,
}

impl UserInfo {
    /// The root user.
    pub fn root() -> (r: UserInfo)
        ensures
            r == root_user(),
    {
        UserInfo { user: 0, group: 0 }
    }
}

/// The root user.
pub open spec fn root_user() -> UserInfo {
    UserInfo { user: 0, group: 0 }
}

/// Device and inode information.
#[derive(Clone, Copy, Debug, PartialEq, Eq, Hash, Structural)]
pub struct NodeInfo {
    /// Device number.
    pub dev: usize,
    /// Inode number.
    pub ino: usize,
    /// Device that is being referred to; given, and then non-zero, only for a special file.
    pub rdev: Option<usize>,
}

/// An entry of a directory listing.
#[non_exhaustive]
#[derive(Debug)]
pub struct DirEntry {
    pub name: String,
    pub file_type: FileType,
    pub ino_info: Option<NodeInfo>,
}

/// A directory entry as a mathematical value.
#[verifier::ext_equal]
pub struct EntryView {
    pub name: Seq<char>,
    pub file_type: FileType,
    pub ino_info: Option<NodeInfo>,
}

impl View for DirEntry {
    type V = EntryView;

    open spec fn view(&self) -> EntryView {
        EntryView { name: self.name@, file_type: self.file_type, ino_info: self.ino_info }
    }
}

/// The contents of a directory listing.
pub open spec fn entry_views(v: Seq<DirEntry>) -> Seq<EntryView> {
    v.map_values(|e: DirEntry| e@)
}

/// The size reported as the size of a directory.
pub const DEFAULT_DIRECTORY_SIZE: usize = 4096;

} // verus!
