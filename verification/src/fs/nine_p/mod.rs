//! A network file system, using the 9P2000.L protocol.
//!
//! The file system decides what to ask the server, and what its replies mean. Asking is left to
//! whoever drives it.
use crate::fs::errors::{
    ChmodError, ChownError, FileStatusError, MkdirError, OpenError, ReadDirError,
    ReadError, RmdirError, SeekError, TruncateError, UnlinkError, WriteError,
};
use crate::fs::{
    DirEntry, EntryView, FileStatus, FileType, Mode, NodeInfo, OFlags, SeekWhence, UserInfo,
};
use crate::text;
use vstd::prelude::*;
use vstd::string::*;

pub mod errors;
pub mod laws;
pub mod path_op;

use errors::Error;
use path_op::{Outcome, PathOp, PathOpKind, PathOpView};

verus! {

/// The device of every file of the file system.
pub const DEVICE_ID: usize = 0x454e494e;

/// The number of a file that the server knows by it.
pub type Fid = u32;

/// `unlinkat` is to remove a directory.
pub const AT_REMOVEDIR: u32 = 0x200;

/// The bit that says that something is a directory.
pub const QID_DIR: u8 = 0x80;

/// What the server identifies a file by.
#[derive(Clone, Copy, Debug, PartialEq, Eq, Structural)]
pub struct Qid {
    /// What kind of file it is.
    pub typ: u8,
    pub version: u32,
    pub path: u64,
}

/// `9P2000.L` flags for opening.
pub struct LOpenFlags {}

impl LOpenFlags {
    pub const O_WRONLY: u32 = 0o1;
    pub const O_RDWR: u32 = 0o2;
    pub const O_CREAT: u32 = 0o100;
    pub const O_EXCL: u32 = 0o200;
    pub const O_TRUNC: u32 = 0o1000;
    pub const O_APPEND: u32 = 0o2000;
    pub const O_NONBLOCK: u32 = 0o4000;
    pub const O_DSYNC: u32 = 0o10000;
    pub const O_DIRECT: u32 = 0o40000;
    pub const O_DIRECTORY: u32 = 0o200000;
    pub const O_NOFOLLOW: u32 = 0o400000;
    pub const O_NOATIME: u32 = 0o1000000;
    pub const O_SYNC: u32 = 0o4000000;
}

/// Which attributes are asked for or given.
pub struct GetattrMask {}

impl GetattrMask {
    pub const MODE: u64 = 0x1;
    pub const UID: u64 = 0x4;
    pub const GID: u64 = 0x8;
    pub const RDEV: u64 = 0x10;
    pub const SIZE: u64 = 0x200;
    pub const BLOCKS: u64 = 0x400;
    /// Mask for all fields up to `BLOCKS`.
    pub const BASIC: u64 = 0x7ff;
    /// Mask for all fields.
    pub const ALL: u64 = 0x3fff;
}

/// Which attributes are to be set.
pub struct SetattrMask {}

impl SetattrMask {
    pub const MODE: u32 = 0x1;
    pub const UID: u32 = 0x2;
    pub const GID: u32 = 0x4;
    pub const SIZE: u32 = 0x8;
}

/// Attributes to be set.
#[derive(Clone, Copy, Debug, PartialEq, Eq, Structural)]
pub struct SetAttr {
    pub mode: u32,
    pub uid: u32,
    pub gid: u32,
    pub size: u64,
}

/// Attributes that the server gave.
#[derive(Clone, Copy, Debug, PartialEq, Eq, Structural)]
pub struct Rgetattr {
    /// Which of the attributes are given.
    pub valid: u64,
    pub qid: Qid,
    pub mode: u32,
    pub uid: u32,
    pub gid: u32,
    pub rdev: u64,
    pub size: u64,
    pub blksize: u64,
}

impl Rgetattr {
    /// Whether attributes are given.
    pub open spec fn gives(self, mask: u64) -> bool {
        self.valid & mask == mask
    }

    fn has(&self, mask: u64) -> (r: bool)
        ensures
            r == self.gives(mask),
    {
        self.valid & mask == mask
    }
}

/// The bit that stands for a flag, if the flag is set.
pub open spec fn lopen_bit(flags: OFlags, flag: u32, bit: u32) -> u32 {
    if flags.has(flag) {
        bit
    } else {
        0
    }
}

/// The flags to open a file with.
pub open spec fn lopen_flags(flags: OFlags) -> u32 {
    let access = if flags.has(OFlags::RDWR) {
        LOpenFlags::O_RDWR
    } else {
        lopen_bit(flags, OFlags::WRONLY, LOpenFlags::O_WRONLY)
    };
    access | lopen_bit(flags, OFlags::CREAT, LOpenFlags::O_CREAT) | lopen_bit(
        flags,
        OFlags::EXCL,
        LOpenFlags::O_EXCL,
    ) | lopen_bit(flags, OFlags::TRUNC, LOpenFlags::O_TRUNC) | lopen_bit(
        flags,
        OFlags::APPEND,
        LOpenFlags::O_APPEND,
    ) | lopen_bit(flags, OFlags::DIRECTORY, LOpenFlags::O_DIRECTORY) | lopen_bit(
        flags,
        OFlags::NOFOLLOW,
        LOpenFlags::O_NOFOLLOW,
    ) | lopen_bit(flags, OFlags::NONBLOCK, LOpenFlags::O_NONBLOCK) | lopen_bit(
        flags,
        OFlags::SYNC,
        LOpenFlags::O_SYNC,
    ) | lopen_bit(flags, OFlags::DSYNC, LOpenFlags::O_DSYNC) | lopen_bit(
        flags,
        OFlags::DIRECT,
        LOpenFlags::O_DIRECT,
    ) | lopen_bit(flags, OFlags::NOATIME, LOpenFlags::O_NOATIME)
}

fn bit_for(flags: OFlags, flag: u32, bit: u32) -> (r: u32)
    ensures
        r == lopen_bit(flags, flag, bit),
{
    if flags.contains(flag) {
        bit
    } else {
        0
    }
}

/// Convert file-system flags to 9P flags.
pub fn oflags_to_lopen(flags: OFlags) -> (r: u32)
    ensures
        r == lopen_flags(flags),
{
    let access: u32 = if flags.contains(OFlags::RDWR) {
        LOpenFlags::O_RDWR
    } else {
        bit_for(flags, OFlags::WRONLY, LOpenFlags::O_WRONLY)
    };
    access | bit_for(flags, OFlags::CREAT, LOpenFlags::O_CREAT) | bit_for(
        flags,
        OFlags::EXCL,
        LOpenFlags::O_EXCL,
    ) | bit_for(flags, OFlags::TRUNC, LOpenFlags::O_TRUNC) | bit_for(
        flags,
        OFlags::APPEND,
        LOpenFlags::O_APPEND,
    ) | bit_for(flags, OFlags::DIRECTORY, LOpenFlags::O_DIRECTORY) | bit_for(
        flags,
        OFlags::NOFOLLOW,
        LOpenFlags::O_NOFOLLOW,
    ) | bit_for(flags, OFlags::NONBLOCK, LOpenFlags::O_NONBLOCK) | bit_for(
        flags,
        OFlags::SYNC,
        LOpenFlags::O_SYNC,
    ) | bit_for(flags, OFlags::DSYNC, LOpenFlags::O_DSYNC) | bit_for(
        flags,
        OFlags::DIRECT,
        LOpenFlags::O_DIRECT,
    ) | bit_for(flags, OFlags::NOATIME, LOpenFlags::O_NOATIME)
}

/// Whether a file is a directory.
pub open spec fn is_dir_type(typ: u8) -> bool {
    typ & QID_DIR == QID_DIR
}

/// The type of a file with a type of Qid.
pub open spec fn type_of_qid(typ: u8) -> FileType {
    if is_dir_type(typ) {
        FileType::Directory
    } else {
        FileType::RegularFile
    }
}

/// Convert a Qid type to a [`FileType`].
pub fn qid_type_to_file_type(typ: u8) -> (r: FileType)
    ensures
        r == type_of_qid(typ),
{
    if typ & QID_DIR == QID_DIR {
        FileType::Directory
    } else {
        FileType::RegularFile
    }
}

/// Whether an attribute can be represented, if it is given.
pub open spec fn fits_if(given: bool, value: int, limit: int) -> bool {
    given ==> value <= limit
}

/// The attribute, or zero if it is not given.
pub open spec fn value_if(given: bool, value: int) -> int {
    if given {
        value
    } else {
        0
    }
}

/// The status that the attributes of a file stand for. Attributes that are not given are zero.
pub open spec fn status_of(attr: Rgetattr) -> Result<FileStatus, Error> {
    let basic = attr.gives(GetattrMask::BASIC);
    let mode = basic || attr.gives(GetattrMask::MODE);
    let size = basic || attr.gives(GetattrMask::SIZE);
    let uid = basic || attr.gives(GetattrMask::UID);
    let gid = basic || attr.gives(GetattrMask::GID);
    let rdev = basic || attr.gives(GetattrMask::RDEV);
    let blocks = basic || attr.gives(GetattrMask::BLOCKS);
    if fits_if(size, attr.size as int, usize::MAX as int) && fits_if(
        uid,
        attr.uid as int,
        u16::MAX as int,
    ) && fits_if(gid, attr.gid as int, u16::MAX as int) && attr.qid.path <= usize::MAX && fits_if(
        rdev,
        attr.rdev as int,
        usize::MAX as int,
    ) && fits_if(blocks, attr.blksize as int, usize::MAX as int) {
        Ok(
            FileStatus {
                file_type: type_of_qid(attr.qid.typ),
                mode: Mode { bits: value_if(mode, attr.mode as int) as u32 },
                size: value_if(size, attr.size as int) as usize,
                owner: UserInfo {
                    user: value_if(uid, attr.uid as int) as u16,
                    group: value_if(gid, attr.gid as int) as u16,
                },
                node_info: NodeInfo {
                    dev: DEVICE_ID,
                    ino: attr.qid.path as usize,
                    rdev: if value_if(rdev, attr.rdev as int) != 0 {
                        Some(attr.rdev as usize)
                    } else {
                        None
                    },
                },
                blksize: value_if(blocks, attr.blksize as int) as usize,
            },
        )
    } else {
        Err(Error::InvalidResponse)
    }
}

/// A number as a `usize`, if it is given.
fn usize_if(given: bool, value: u64) -> (r: Option<usize>)
    ensures
        r == if fits_if(given, value as int, usize::MAX as int) {
            Some(value_if(given, value as int) as usize)
        } else {
            None
        },
{
    if !given {
        Some(0)
    } else if value <= usize::MAX as u64 {
        Some(value as usize)
    } else {
        None
    }
}

/// A number as a `u16`, if it is given.
fn u16_if(given: bool, value: u32) -> (r: Option<u16>)
    ensures
        r == if fits_if(given, value as int, u16::MAX as int) {
            Some(value_if(given, value as int) as u16)
        } else {
            None
        },
{
    if !given {
        Some(0)
    } else if value <= u16::MAX as u32 {
        Some(value as u16)
    } else {
        None
    }
}

/// Convert attributes to a [`FileStatus`].
pub fn rgetattr_to_file_status(attr: &Rgetattr) -> (r: Result<FileStatus, Error>)
    ensures
        r == status_of(*attr),
{
    let file_type = qid_type_to_file_type(attr.qid.typ);
    let basic = attr.has(GetattrMask::BASIC);
    let size = usize_if(basic || attr.has(GetattrMask::SIZE), attr.size);
    let user = u16_if(basic || attr.has(GetattrMask::UID), attr.uid);
    let group = u16_if(basic || attr.has(GetattrMask::GID), attr.gid);
    let ino = usize_if(true, attr.qid.path);
    let rdev = usize_if(basic || attr.has(GetattrMask::RDEV), attr.rdev);
    let blksize = usize_if(basic || attr.has(GetattrMask::BLOCKS), attr.blksize);
    let mode: u32 = if basic || attr.has(GetattrMask::MODE) {
        attr.mode
    } else {
        0
    };
    match (size, user, group, ino, rdev, blksize) {
        (Some(size), Some(user), Some(group), Some(ino), Some(rdev), Some(blksize)) => Ok(
            FileStatus {
                file_type,
                mode: Mode::from_bits_truncate(mode),
                size,
                owner: UserInfo { user, group },
                node_info: NodeInfo {
                    dev: DEVICE_ID,
                    ino,
                    rdev: if rdev != 0 {
                        Some(rdev)
                    } else {
                        None
                    },
                },
                blksize,
            },
        ),
        _ => Err(Error::InvalidResponse),
    }
}

/// The components of a path, with `.` left out and `..` taking away the component before it, if
/// there is one.
pub open spec fn resolved(components: Seq<Seq<char>>) -> Seq<Seq<char>>
    decreases components.len(),
{
    if components.len() == 0 {
        Seq::empty()
    } else {
        let before = resolved(components.drop_last());
        let last = components.last();
        if last == "."@ {
            before
        } else if last == ".."@ {
            if before.len() > 0 {
                before.drop_last()
            } else {
                before
            }
        } else {
            before.push(last)
        }
    }
}

/// The components of the absolute path for a path.
pub open spec fn absolute_components(cwd: Seq<Seq<char>>, path: Seq<char>) -> Seq<Seq<char>> {
    if path.len() > 0 && path[0] == '/' {
        resolved(text::path_components(path))
    } else {
        resolved(cwd + text::path_components(path))
    }
}

/// No component of a resolved path is `.` or `..`.
pub proof fn lemma_resolved_is_plain(components: Seq<Seq<char>>)
    ensures
        forall|k: int|
            0 <= k < resolved(components).len() ==> (#[trigger] resolved(components)[k]) != "."@
                && resolved(components)[k] != ".."@,
    decreases components.len(),
{
    if components.len() > 0 {
        let before = resolved(components.drop_last());
        lemma_resolved_is_plain(components.drop_last());
        assert forall|k: int| 0 <= k < resolved(components).len() implies (
        #[trigger] resolved(components)[k]) != "."@ && resolved(components)[k] != ".."@ by {
            if k < before.len() {
                assert(resolved(components)[k] == before[k]);
            }
        }
    }
}

/// A resolved path is left as it is by resolving it again.
pub proof fn lemma_resolved_is_stable(components: Seq<Seq<char>>)
    requires
        forall|k: int|
            0 <= k < components.len() ==> (#[trigger] components[k]) != "."@ && components[k]
                != ".."@,
    ensures
        resolved(components) == components,
    decreases components.len(),
{
    if components.len() > 0 {
        let before = components.drop_last();
        assert forall|k: int| 0 <= k < before.len() implies (#[trigger] before[k]) != "."@
            && before[k] != ".."@ by {
            assert(components[k] == before[k]);
        }
        lemma_resolved_is_stable(before);
        assert(components[components.len() - 1] == components.last());
        assert(before.push(components.last()) =~= components);
    } else {
        assert(resolved(components) =~= components);
    }
}

fn resolve(components: &Vec<String>) -> (r: Vec<String>)
    ensures
        text::texts(r@) == resolved(text::texts(components@)),
{
    let ghost all = text::texts(components@);
    let mut kept: Vec<String> = Vec::new();
    let mut i: usize = 0;
    assert(text::texts(kept@) =~= resolved(all.take(0)));
    while i < components.len()
        invariant
            i <= components.len(),
            all == text::texts(components@),
            text::texts(kept@) == resolved(all.take(i as int)),
        decreases components.len() - i,
    {
        let ghost before = kept@;
        let c = components[i].as_str();
        assert(all.take(i + 1).drop_last() =~= all.take(i as int));
        assert(all.take(i + 1).last() == c@);
        if text::same_text(c, ".") {
        } else if text::same_text(c, "..") {
            if kept.len() > 0 {
                let popped = kept.pop();
                assert(text::texts(kept@) =~= text::texts(before).drop_last());
            }
        } else {
            kept.push(components[i].clone());
            assert(text::texts(kept@) =~= text::texts(before).push(c@));
        }
        i = i + 1;
    }
    assert(all.take(i as int) =~= all);
    kept
}

/// An open file.
#[derive(Clone, Copy, Debug, PartialEq, Eq, Structural)]
pub struct Descriptor {
    /// The fid of the file.
    pub fid: Fid,
    /// Current file offset (9P doesn't track this server-side).
    pub offset: usize,
    /// The qid of the file.
    pub qid: Qid,
}

/// A descriptor of an open file.
#[derive(Clone, Copy, Debug, PartialEq, Eq, Structural)]
pub struct FileFd {
    index: usize,
}

impl FileFd {
    /// The number of the descriptor.
    pub closed spec fn number(&self) -> int {
        self.index as int
    }
}

/// The value of a [`FileSystem`].
#[verifier::ext_equal]
pub struct FsState {
    pub root: Fid,
    /// The components of the current working directory.
    pub cwd: Seq<Seq<char>>,
    /// Whether the server is believed to support `unlinkat`.
    pub unlinkat_supported: bool,
    pub open: Seq<Option<Descriptor>>,
}

impl FsState {
    /// Whether a descriptor is open.
    pub open spec fn is_open(self, i: int) -> bool {
        0 <= i < self.open.len() && self.open[i] is Some
    }

    /// What a descriptor is open on.
    pub open spec fn at(self, i: int) -> Descriptor {
        self.open[i]->Some_0
    }

    /// The file system with the offset of a descriptor changed.
    pub open spec fn with_offset(self, i: int, offset: usize) -> FsState {
        FsState {
            open: self.open.update(i, Some(Descriptor { offset, ..self.at(i) })),
            ..self
        }
    }

    /// An operation on a path that has just begun.
    pub open spec fn path_op(self, kind: PathOpKind, path: Seq<char>) -> PathOpView {
        path_op::begun(kind, absolute_components(self.cwd, path), self.unlinkat_supported)
    }

    /// Opening a file.
    pub open spec fn open_op(self, path: Seq<char>, flags: OFlags, mode: Mode) -> PathOpView {
        self.path_op(
            PathOpKind::Open {
                lflags: lopen_flags(OFlags { bits: flags.bits & !OFlags::NONBLOCK }),
                mode: mode.bits,
                create: flags.has(OFlags::CREAT),
            },
            path,
        )
    }

    /// Changing permissions.
    pub open spec fn chmod_op(self, path: Seq<char>, mode: Mode) -> PathOpView {
        self.path_op(PathOpKind::Chmod { mode: mode.bits }, path)
    }

    /// Changing the owner.
    pub open spec fn chown_op(
        self,
        path: Seq<char>,
        user: Option<u16>,
        group: Option<u16>,
    ) -> PathOpView {
        self.path_op(PathOpKind::Chown { user, group }, path)
    }

    /// Removing a file.
    pub open spec fn unlink_op(self, path: Seq<char>) -> PathOpView {
        self.path_op(PathOpKind::Remove { is_file: true }, path)
    }

    /// Making a directory.
    pub open spec fn mkdir_op(self, path: Seq<char>, mode: Mode) -> PathOpView {
        self.path_op(PathOpKind::Mkdir { mode: mode.bits }, path)
    }

    /// Removing a directory.
    pub open spec fn rmdir_op(self, path: Seq<char>) -> PathOpView {
        self.path_op(PathOpKind::Remove { is_file: false }, path)
    }

    /// The fid of a descriptor, if it is open.
    pub open spec fn fid_of(self, i: int) -> Option<Fid> {
        if self.is_open(i) {
            Some(self.at(i).fid)
        } else {
            None
        }
    }

    /// The file system with a descriptor closed.
    pub open spec fn closed(self, i: int) -> FsState {
        if self.is_open(i) {
            FsState { open: self.open.update(i, None), ..self }
        } else {
            self
        }
    }

    /// The fid and the offset to read or write at: the offset that is given, or else that of the
    /// descriptor.
    pub open spec fn io_request(self, i: int, offset: Option<usize>) -> Option<(Fid, u64)> {
        match (self.is_open(i), offset) {
            (false, _) => None,
            (true, Some(at)) => Some((self.at(i).fid, at as u64)),
            (true, None) => Some((self.at(i).fid, self.at(i).offset as u64)),
        }
    }

    /// The fid and the offset to read at.
    pub open spec fn read_request(self, i: int, offset: Option<usize>) -> Result<
        (Fid, u64),
        ReadError,
    > {
        match self.io_request(i, offset) {
            Some(request) => Ok(request),
            None => Err(ReadError::ClosedFd),
        }
    }

    /// The fid and the offset to write at.
    pub open spec fn write_request(self, i: int, offset: Option<usize>) -> Result<
        (Fid, u64),
        WriteError,
    > {
        match self.io_request(i, offset) {
            Some(request) => Ok(request),
            None => Err(WriteError::ClosedFd),
        }
    }

    /// The fid of a file whose size is needed to seek, if it is.
    pub open spec fn seek_request(self, i: int, whence: SeekWhence) -> Result<
        Option<Fid>,
        SeekError,
    > {
        if !self.is_open(i) {
            Err(SeekError::ClosedFd)
        } else if whence == SeekWhence::RelativeToEnd {
            Ok(Some(self.at(i).fid))
        } else {
            Ok(None)
        }
    }

    /// The fid of a file whose status is asked for.
    pub open spec fn status_request(self, i: int) -> Result<Fid, FileStatusError> {
        if self.is_open(i) {
            Ok(self.at(i).fid)
        } else {
            Err(FileStatusError::ClosedFd)
        }
    }

    /// The file system after reading or writing: the offset of the descriptor has moved, unless an
    /// offset was given.
    pub open spec fn after_io(
        self,
        i: int,
        offset: Option<usize>,
        reply: Result<usize, Error>,
    ) -> FsState {
        if reply is Ok && offset is None && self.is_open(i) {
            self.with_offset(i, moved(self.at(i).offset, reply->Ok_0))
        } else {
            self
        }
    }

    /// The fid to truncate, and the attributes to set along with their mask.
    pub open spec fn truncate_request(self, i: int, length: usize) -> Result<
        (Fid, u32, SetAttr),
        TruncateError,
    > {
        if !self.is_open(i) {
            Err(TruncateError::ClosedFd)
        } else if is_dir_type(self.at(i).qid.typ) {
            Err(TruncateError::IsDirectory)
        } else {
            Ok(
                (
                    self.at(i).fid,
                    SetattrMask::SIZE,
                    SetAttr { mode: 0, uid: 0, gid: 0, size: length as u64 },
                ),
            )
        }
    }

    /// The file system after truncating.
    pub open spec fn after_truncate(
        self,
        i: int,
        reset_offset: bool,
        reply: Result<(), Error>,
    ) -> FsState {
        if reply is Ok && reset_offset && self.is_open(i) {
            self.with_offset(i, 0)
        } else {
            self
        }
    }

    /// The fid of a directory to list.
    pub open spec fn read_dir_request(self, i: int) -> Result<Fid, ReadDirError> {
        if !self.is_open(i) {
            Err(ReadDirError::ClosedFd)
        } else if !is_dir_type(self.at(i).qid.typ) {
            Err(ReadDirError::NotADirectory)
        } else {
            Ok(self.at(i).fid)
        }
    }
}

/// A file system on a 9P server.
pub struct FileSystem {
    root: Fid,
    current_working_dir: Vec<String>,
    /// Whether `unlinkat` is supported by the server.
    unlinkat_supported: bool,
    descriptors: Vec<Option<Descriptor>>,
}

/// The flags that files can be opened with. `NONBLOCK` is ignored.
pub const SUPPORTED_OFLAGS: u32 = 0x0 | 0x1 | 0x2 | 0x40 | 0x100 | 0x80 | 0x10000 | 0x8000 | 0x800;

/// A file offset moved by what was read or written, wrapping around at the largest number.
pub open spec fn moved(offset: usize, by: usize) -> usize {
    if offset + by <= usize::MAX {
        (offset + by) as usize
    } else {
        (offset + by - usize::MAX - 1) as usize
    }
}

/// Where seeking ends, given the size of the file.
pub open spec fn seek_target(
    current: usize,
    size: usize,
    offset: isize,
    whence: SeekWhence,
) -> Option<usize> {
    let base = match whence {
        SeekWhence::RelativeToBeginning => 0,
        SeekWhence::RelativeToCurrentOffset => current,
        SeekWhence::RelativeToEnd => size,
    };
    if 0 <= base + offset <= usize::MAX {
        Some((base + offset) as usize)
    } else {
        None
    }
}

/// The text that bytes stand for as UTF-8, with a replacement for what does not stand for any.
pub uninterp spec fn lossy_text(bytes: Seq<u8>) -> Seq<char>;

/// [`String::from_utf8_lossy`]: the text that bytes stand for as UTF-8, with a replacement for what
/// does not stand for any. Of bytes that all stand for something, nothing is replaced.
#[verifier::external_body]
fn text_from_utf8_lossy(bytes: &[u8]) -> (r: String)
    ensures
        r@ == lossy_text(bytes@),
        vstd::utf8::valid_utf8(bytes@) ==> r@ == vstd::utf8::decode_utf8(bytes@),
{
    String::from_utf8_lossy(bytes).into_owned()
}

/// A directory entry, as the server gave it.
pub struct RemoteEntry {
    pub name: Vec<u8>,
    pub typ: u8,
    pub qid: Qid,
}

/// The listing entry that an entry of the server stands for.
pub open spec fn listed(e: RemoteEntry) -> EntryView {
    EntryView {
        name: lossy_text(e.name@),
        file_type: if e.typ == QID_DIR {
            FileType::Directory
        } else {
            FileType::RegularFile
        },
        ino_info: Some(NodeInfo { dev: DEVICE_ID, ino: e.qid.path as usize, rdev: None }),
    }
}

/// What changing permissions came to.
pub open spec fn chmod_outcome(outcome: Result<Outcome, Error>) -> Result<(), ChmodError> {
    match outcome {
        Ok(_) => Ok(()),
        Err(e) => Err(errors::chmod_error_of(e)),
    }
}

/// What changing the owner came to.
pub open spec fn chown_outcome(outcome: Result<Outcome, Error>) -> Result<(), ChownError> {
    match outcome {
        Ok(_) => Ok(()),
        Err(e) => Err(errors::chown_error_of(e)),
    }
}

/// What removing a file came to.
pub open spec fn unlink_outcome(outcome: Result<Outcome, Error>) -> Result<(), UnlinkError> {
    match outcome {
        Ok(_) => Ok(()),
        Err(e) => Err(errors::unlink_error_of(e)),
    }
}

/// What making a directory came to.
pub open spec fn mkdir_outcome(outcome: Result<Outcome, Error>) -> Result<(), MkdirError> {
    match outcome {
        Ok(_) => Ok(()),
        Err(e) => Err(errors::mkdir_error_of(e)),
    }
}

/// What removing a directory came to.
pub open spec fn rmdir_outcome(outcome: Result<Outcome, Error>) -> Result<(), RmdirError> {
    match outcome {
        Ok(_) => Ok(()),
        Err(e) => Err(errors::rmdir_error_of(e)),
    }
}

/// What reading came to.
pub open spec fn read_outcome(reply: Result<usize, Error>) -> Result<usize, ReadError> {
    match reply {
        Ok(n) => Ok(n),
        Err(e) => Err(errors::read_error_of(e)),
    }
}

/// What writing came to.
pub open spec fn write_outcome(reply: Result<usize, Error>) -> Result<usize, WriteError> {
    match reply {
        Ok(n) => Ok(n),
        Err(e) => Err(errors::write_error_of(e)),
    }
}

/// What truncating came to.
pub open spec fn truncate_outcome(reply: Result<(), Error>) -> Result<(), TruncateError> {
    match reply {
        Ok(()) => Ok(()),
        Err(e) => Err(errors::truncate_error_of(e)),
    }
}

/// What came of opening a file: a new descriptor at its start, or nothing.
pub open spec fn is_opened(
    before: FsState,
    outcome: Result<Outcome, Error>,
    after: FsState,
    r: Result<FileFd, OpenError>,
) -> bool {
    match outcome {
        Ok(Outcome::Opened { qid, fid }) => {
            &&& r is Ok
            &&& r->Ok_0.number() == before.open.len()
            &&& after == (FsState {
                open: before.open.push(Some(Descriptor { fid, offset: 0, qid })),
                ..before
            })
        },
        Ok(_) => r == Err::<FileFd, OpenError>(OpenError::Io) && after == before,
        Err(e) => r == Err::<FileFd, OpenError>(errors::open_error_of(e)) && after == before,
    }
}

/// What came of moving the offset of a descriptor.
pub open spec fn is_seek(
    before: FsState,
    i: int,
    offset: isize,
    whence: SeekWhence,
    size: Result<u64, Error>,
    after: FsState,
    r: Result<usize, SeekError>,
) -> bool {
    let from_end = whence == SeekWhence::RelativeToEnd;
    if !before.is_open(i) {
        r == Err::<usize, SeekError>(SeekError::ClosedFd) && after == before
    } else if from_end && size is Err {
        r == Err::<usize, SeekError>(errors::seek_error_of(size->Err_0)) && after == before
    } else if from_end && size->Ok_0 > usize::MAX {
        r == Err::<usize, SeekError>(SeekError::Io) && after == before
    } else {
        match seek_target(before.at(i).offset, size->Ok_0 as usize, offset, whence) {
            Some(at) => r == Ok::<usize, SeekError>(at) && after == before.with_offset(i, at),
            None => r == Err::<usize, SeekError>(SeekError::InvalidOffset) && after == before,
        }
    }
}

/// What came of listing a directory: the entries of the server, in their order.
pub open spec fn is_listing_of(
    reply: Result<Vec<RemoteEntry>, Error>,
    r: Result<Vec<DirEntry>, ReadDirError>,
) -> bool {
    match reply {
        Err(e) => r is Err && r->Err_0 == errors::read_dir_error_of(e),
        Ok(entries) => if exists|k: int|
            0 <= k < entries@.len() && (#[trigger] entries@[k]).qid.path > usize::MAX {
            r is Err && r->Err_0 == ReadDirError::Io
        } else {
            &&& r is Ok
            &&& r->Ok_0@.len() == entries@.len()
            &&& forall|k: int|
                0 <= k < entries@.len() ==> (#[trigger] r->Ok_0@[k])@ == listed(entries@[k])
        },
    }
}

/// What came of asking for the status of a file.
pub open spec fn status_result(reply: Result<Rgetattr, Error>) -> Result<
    FileStatus,
    FileStatusError,
> {
    match reply {
        Ok(attr) => match status_of(attr) {
            Ok(status) => Ok(status),
            Err(e) => Err(errors::file_status_error_of(e)),
        },
        Err(e) => Err(errors::file_status_error_of(e)),
    }
}

impl FileSystem {
    /// The value of the file system.
    pub closed spec fn state(&self) -> FsState {
        FsState {
            root: self.root,
            cwd: text::texts(self.current_working_dir@),
            unlinkat_supported: self.unlinkat_supported,
            open: self.descriptors@,
        }
    }

    /// A file system attached to a server, with the fid of its root.
    pub fn new(root: Fid) -> (r: Self)
        ensures
            r.state() == (FsState {
                root,
                cwd: Seq::empty(),
                unlinkat_supported: true,
                open: Seq::empty(),
            }),
    {
        let r = FileSystem {
            root,
            current_working_dir: Vec::new(),
            unlinkat_supported: true,
            descriptors: Vec::new(),
        };
        assert(text::texts(r.current_working_dir@) =~= Seq::empty());
        r
    }

    /// The fid of the root, to be clunked when the file system is no longer used.
    pub fn root(&self) -> (r: Fid)
        ensures
            r == self.state().root,
    {
        self.root
    }

    /// Gives the components of the absolute path for `path`, resolving any `.` or `..`s, and
    /// making sure to account for any relative paths from current working directory.
    ///
    /// Note: does NOT account for symlinks.
    pub fn absolute_path(&self, path: &str) -> (r: Vec<String>)
        ensures
            text::texts(r@) == absolute_components(self.state().cwd, path@),
    {
        let chars = text::chars_of(path);
        let given = text::split_path(path);
        if chars.len() > 0 && chars[0] == '/' {
            return resolve(&given);
        }
        let mut all = text::copy_path(&self.current_working_dir);
        let ghost start = text::texts(all@);
        let mut i: usize = 0;
        while i < given.len()
            invariant
                i <= given.len(),
                text::texts(all@) =~= start + text::texts(given@).take(i as int),
            decreases given.len() - i,
        {
            let ghost before = all@;
            all.push(given[i].clone());
            assert(text::texts(all@) =~= text::texts(before).push(given@[i as int]@));
            assert(text::texts(given@).take(i + 1) =~= text::texts(given@).take(i as int).push(
                given@[i as int]@,
            ));
            i = i + 1;
        }
        assert(text::texts(given@).take(i as int) =~= text::texts(given@));
        assert(text::texts(all@) =~= start + text::texts(given@));
        resolve(&all)
    }

    /// Begin an operation on a path.
    pub fn begin(&self, path: &str, kind: PathOpKind) -> (r: PathOp)
        requires
            kind.is_possible(absolute_components(self.state().cwd, path@)),
        ensures
            r@ == self.state().path_op(kind, path@),
    {
        PathOp::begin(kind, self.absolute_path(path), self.unlinkat_supported)
    }

    /// Begin opening a file. Files cannot be opened with other flags than [`SUPPORTED_OFLAGS`], and
    /// the root cannot be created.
    pub fn open(&self, path: &str, flags: OFlags, mode: Mode) -> (r: PathOp)
        requires
            flags.bits & !SUPPORTED_OFLAGS == 0,
            flags.has(OFlags::CREAT) ==> absolute_components(self.state().cwd, path@).len() > 0,
        ensures
            r@ == self.state().open_op(path@, flags, mode),
    {
        let create = flags.contains(OFlags::CREAT);
        let lflags: u32 = oflags_to_lopen(flags.without(OFlags::NONBLOCK));
        self.begin(path, PathOpKind::Open { lflags, mode: mode.bits, create })
    }

    /// Finish opening a file, with the outcome of the operation.
    pub fn opened(&mut self, outcome: Result<Outcome, Error>) -> (r: Result<FileFd, OpenError>)
        ensures
            is_opened(old(self).state(), outcome, final(self).state(), r),
    {
        match outcome {
            Ok(Outcome::Opened { qid, fid }) => {
                let index: usize = self.descriptors.len();
                self.descriptors.push(Some(Descriptor { fid, offset: 0, qid }));
                Ok(FileFd { index })
            },
            Ok(_) => Err(OpenError::Io),
            Err(e) => Err(OpenError::from(e)),
        }
    }

    /// Begin changing the permissions of a file or directory.
    pub fn chmod(&self, path: &str, mode: Mode) -> (r: PathOp)
        ensures
            r@ == self.state().chmod_op(path@, mode),
    {
        self.begin(path, PathOpKind::Chmod { mode: mode.bits })
    }

    /// Finish changing permissions, with the outcome of the operation.
    pub fn chmod_result(outcome: Result<Outcome, Error>) -> (r: Result<(), ChmodError>)
        ensures
            r == chmod_outcome(outcome),
    {
        match outcome {
            Ok(_) => Ok(()),
            Err(e) => Err(ChmodError::from(e)),
        }
    }

    /// Begin changing the owner of a file or directory.
    pub fn chown(&self, path: &str, user: Option<u16>, group: Option<u16>) -> (r: PathOp)
        ensures
            r@ == self.state().chown_op(path@, user, group),
    {
        self.begin(path, PathOpKind::Chown { user, group })
    }

    /// Finish changing the owner, with the outcome of the operation.
    pub fn chown_result(outcome: Result<Outcome, Error>) -> (r: Result<(), ChownError>)
        ensures
            r == chown_outcome(outcome),
    {
        match outcome {
            Ok(_) => Ok(()),
            Err(e) => Err(ChownError::from(e)),
        }
    }

    /// Begin removing a file. Once it has finished, [`learn`](Self::learn) from it.
    pub fn unlink(&self, path: &str) -> (r: PathOp)
        ensures
            r@ == self.state().unlink_op(path@),
    {
        self.begin(path, PathOpKind::Remove { is_file: true })
    }

    /// Finish removing a file, with the outcome of the operation.
    pub fn unlink_result(outcome: Result<Outcome, Error>) -> (r: Result<(), UnlinkError>)
        ensures
            r == unlink_outcome(outcome),
    {
        match outcome {
            Ok(_) => Ok(()),
            Err(e) => Err(UnlinkError::from(e)),
        }
    }

    /// Begin making a directory.
    pub fn mkdir(&self, path: &str, mode: Mode) -> (r: PathOp)
        ensures
            r@ == self.state().mkdir_op(path@, mode),
    {
        self.begin(path, PathOpKind::Mkdir { mode: mode.bits })
    }

    /// Finish making a directory, with the outcome of the operation.
    pub fn mkdir_result(outcome: Result<Outcome, Error>) -> (r: Result<(), MkdirError>)
        ensures
            r == mkdir_outcome(outcome),
    {
        match outcome {
            Ok(_) => Ok(()),
            Err(e) => Err(MkdirError::from(e)),
        }
    }

    /// Begin removing a directory. Once it has finished, [`learn`](Self::learn) from it.
    pub fn rmdir(&self, path: &str) -> (r: PathOp)
        ensures
            r@ == self.state().rmdir_op(path@),
    {
        self.begin(path, PathOpKind::Remove { is_file: false })
    }

    /// Finish removing a directory, with the outcome of the operation.
    pub fn rmdir_result(outcome: Result<Outcome, Error>) -> (r: Result<(), RmdirError>)
        ensures
            r == rmdir_outcome(outcome),
    {
        match outcome {
            Ok(_) => Ok(()),
            Err(e) => Err(RmdirError::from(e)),
        }
    }

    /// Note what removing a file or directory has taught of the server.
    pub fn learn(&mut self, op: &PathOp)
        ensures
            final(self).state() == (FsState {
                unlinkat_supported: op@.unlinkat_supported,
                ..old(self).state()
            }),
    {
        self.unlinkat_supported = op.unlinkat_is_supported();
    }

    /// Close a file. Its fid, if it was open, is to be clunked.
    pub fn close(&mut self, fd: &FileFd) -> (r: Option<Fid>)
        ensures
            r == old(self).state().fid_of(fd.number()),
            final(self).state() == old(self).state().closed(fd.number()),
    {
        if fd.index < self.descriptors.len() {
            if let Some(entry) = self.descriptors[fd.index] {
                self.descriptors.set(fd.index, None);
                return Some(entry.fid);
            }
        }
        None
    }

    /// What a descriptor is open on.
    pub fn descriptor(&self, fd: &FileFd) -> (r: Option<Descriptor>)
        ensures
            r == if self.state().is_open(fd.number()) {
                Some(self.state().at(fd.number()))
            } else {
                None
            },
    {
        if fd.index < self.descriptors.len() {
            self.descriptors[fd.index]
        } else {
            None
        }
    }

    fn set_offset(&mut self, fd: &FileFd, offset: usize)
        requires
            old(self).state().is_open(fd.number()),
        ensures
            final(self).state() == old(self).state().with_offset(fd.number(), offset),
    {
        if let Some(entry) = self.descriptors[fd.index] {
            self.descriptors.set(fd.index, Some(Descriptor { offset, ..entry }));
        }
    }

    /// Begin reading: the fid and the offset to read at.
    pub fn read(&self, fd: &FileFd, offset: Option<usize>) -> (r: Result<(Fid, u64), ReadError>)
        ensures
            r == self.state().read_request(fd.number(), offset),
    {
        match self.descriptor(fd) {
            None => Err(ReadError::ClosedFd),
            Some(entry) => match offset {
                Some(at) => Ok((entry.fid, at as u64)),
                None => Ok((entry.fid, entry.offset as u64)),
            },
        }
    }

    /// Finish reading, with the number of bytes that the server gave.
    pub fn have_read(&mut self, fd: &FileFd, offset: Option<usize>, reply: Result<usize, Error>) -> (r:
        Result<usize, ReadError>)
        ensures
            r == read_outcome(reply),
            final(self).state() == old(self).state().after_io(fd.number(), offset, reply),
    {
        match reply {
            Ok(n) => {
                self.advance(fd, offset, n);
                Ok(n)
            },
            Err(e) => Err(ReadError::from(e)),
        }
    }

    /// Move the offset of a descriptor, unless an offset was given.
    fn advance(&mut self, fd: &FileFd, offset: Option<usize>, n: usize)
        ensures
            final(self).state() == if offset is None && old(self).state().is_open(fd.number()) {
                old(self).state().with_offset(
                    fd.number(),
                    moved(old(self).state().at(fd.number()).offset, n),
                )
            } else {
                old(self).state()
            },
    {
        if offset.is_none() {
            if let Some(entry) = self.descriptor(fd) {
                self.set_offset(fd, entry.offset.wrapping_add(n));
            }
        }
    }

    /// Begin writing: the fid and the offset to write at.
    pub fn write(&self, fd: &FileFd, offset: Option<usize>) -> (r: Result<(Fid, u64), WriteError>)
        ensures
            r == self.state().write_request(fd.number(), offset),
    {
        match self.descriptor(fd) {
            None => Err(WriteError::ClosedFd),
            Some(entry) => match offset {
                Some(at) => Ok((entry.fid, at as u64)),
                None => Ok((entry.fid, entry.offset as u64)),
            },
        }
    }

    /// Finish writing, with the number of bytes that the server took.
    pub fn written(&mut self, fd: &FileFd, offset: Option<usize>, reply: Result<usize, Error>) -> (r:
        Result<usize, WriteError>)
        ensures
            r == write_outcome(reply),
            final(self).state() == old(self).state().after_io(fd.number(), offset, reply),
    {
        match reply {
            Ok(n) => {
                self.advance(fd, offset, n);
                Ok(n)
            },
            Err(e) => Err(WriteError::from(e)),
        }
    }

    /// Begin moving the offset of a file: the fid of the file if its size is needed, which is so
    /// when seeking from the end.
    pub fn seek_from(&self, fd: &FileFd, whence: SeekWhence) -> (r: Result<Option<Fid>, SeekError>)
        ensures
            r == self.state().seek_request(fd.number(), whence),
    {
        match (self.descriptor(fd), whence) {
            (None, _) => Err(SeekError::ClosedFd),
            (Some(entry), SeekWhence::RelativeToEnd) => Ok(Some(entry.fid)),
            _ => Ok(None),
        }
    }

    /// Move the offset of a file. Only when seeking from the end is `size` looked at: what the
    /// server said the size of the file is.
    pub fn seek(
        &mut self,
        fd: &FileFd,
        offset: isize,
        whence: SeekWhence,
        size: Result<u64, Error>,
    ) -> (r: Result<usize, SeekError>)
        ensures
            is_seek(old(self).state(), fd.number(), offset, whence, size, final(self).state(), r),
    {
        let entry = match self.descriptor(fd) {
            None => {
                return Err(SeekError::ClosedFd);
            },
            Some(entry) => entry,
        };
        let base: usize = match whence {
            SeekWhence::RelativeToBeginning => 0,
            SeekWhence::RelativeToCurrentOffset => entry.offset,
            SeekWhence::RelativeToEnd => match size {
                Err(e) => {
                    return Err(SeekError::from(e));
                },
                Ok(size) => {
                    if size > usize::MAX as u64 {
                        return Err(SeekError::from(Error::InvalidResponse));
                    }
                    size as usize
                },
            },
        };
        let target: i128 = base as i128 + offset as i128;
        if target < 0 || target > usize::MAX as i128 {
            return Err(SeekError::InvalidOffset);
        }
        let new_offset: usize = target as usize;
        self.set_offset(fd, new_offset);
        Ok(new_offset)
    }

    /// Begin truncating: the fid, and the attributes to set along with their mask.
    pub fn truncate(&self, fd: &FileFd, length: usize) -> (r: Result<
        (Fid, u32, SetAttr),
        TruncateError,
    >)
        ensures
            r == self.state().truncate_request(fd.number(), length),
    {
        match self.descriptor(fd) {
            None => Err(TruncateError::ClosedFd),
            Some(entry) => {
                if entry.qid.typ & QID_DIR == QID_DIR {
                    return Err(TruncateError::IsDirectory);
                }
                Ok(
                    (
                        entry.fid,
                        SetattrMask::SIZE,
                        SetAttr { mode: 0, uid: 0, gid: 0, size: length as u64 },
                    ),
                )
            },
        }
    }

    /// Finish truncating, with the reply of the server.
    pub fn truncated(&mut self, fd: &FileFd, reset_offset: bool, reply: Result<(), Error>) -> (r: Result<
        (),
        TruncateError,
    >)
        ensures
            r == truncate_outcome(reply),
            final(self).state() == old(self).state().after_truncate(fd.number(), reset_offset, reply),
    {
        match reply {
            Ok(()) => {
                if reset_offset && self.descriptor(fd).is_some() {
                    self.set_offset(fd, 0);
                }
                Ok(())
            },
            Err(e) => Err(TruncateError::from(e)),
        }
    }

    /// Begin listing a directory: its fid.
    pub fn read_dir(&self, fd: &FileFd) -> (r: Result<Fid, ReadDirError>)
        ensures
            r == self.state().read_dir_request(fd.number()),
    {
        match self.descriptor(fd) {
            None => Err(ReadDirError::ClosedFd),
            Some(entry) => {
                if entry.qid.typ & QID_DIR != QID_DIR {
                    return Err(ReadDirError::NotADirectory);
                }
                Ok(entry.fid)
            },
        }
    }

    /// Finish listing a directory, with the entries that the server gave.
    pub fn listing(reply: Result<Vec<RemoteEntry>, Error>) -> (r: Result<Vec<DirEntry>, ReadDirError>)
        ensures
            is_listing_of(reply, r),
    {
        let entries = match reply {
            Err(e) => {
                return Err(ReadDirError::from(e));
            },
            Ok(entries) => entries,
        };
        let mut out: Vec<DirEntry> = Vec::new();
        let mut i: usize = 0;
        while i < entries.len()
            invariant
                i <= entries.len(),
                reply == Ok::<Vec<RemoteEntry>, Error>(entries),
                out.len() == i,
                forall|k: int| 0 <= k < i ==> (#[trigger] entries@[k]).qid.path <= usize::MAX,
                forall|k: int| 0 <= k < i ==> (#[trigger] out@[k])@ == listed(entries@[k]),
            decreases entries.len() - i,
        {
            let e = &entries[i];
            if e.qid.path > usize::MAX as u64 {
                assert(entries@[i as int].qid.path > usize::MAX);
                return Err(ReadDirError::from(Error::InvalidResponse));
            }
            let file_type = if e.typ == QID_DIR {
                FileType::Directory
            } else {
                FileType::RegularFile
            };
            out.push(
                DirEntry {
                    name: text_from_utf8_lossy(e.name.as_slice()),
                    file_type,
                    ino_info: Some(
                        NodeInfo { dev: DEVICE_ID, ino: e.qid.path as usize, rdev: None },
                    ),
                },
            );
            i = i + 1;
        }
        Ok(out)
    }

    /// The status of a file, with the attributes that the server gave.
    pub fn file_status(reply: Result<Rgetattr, Error>) -> (r: Result<FileStatus, FileStatusError>)
        ensures
            r == status_result(reply),
    {
        match reply {
            Ok(attr) => match rgetattr_to_file_status(&attr) {
                Ok(status) => Ok(status),
                Err(e) => Err(FileStatusError::from(e)),
            },
            Err(e) => Err(FileStatusError::from(e)),
        }
    }

    /// Begin asking for the status of an open file: its fid.
    pub fn fd_file_status(&self, fd: &FileFd) -> (r: Result<Fid, FileStatusError>)
        ensures
            r == self.state().status_request(fd.number()),
    {
        match self.descriptor(fd) {
            None => Err(FileStatusError::ClosedFd),
            Some(entry) => Ok(entry.fid),
        }
    }
}

} // verus!
