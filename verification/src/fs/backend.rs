//! What a file-system backend provides, and the values that walks through it produce.
use crate::fs::errors::{
    ChmodError, ChownError, FileStatusError, MkdirError, OpenError, ReadDirError, ReadError,
    RmdirError, TruncateError, UnlinkError, WalkError, WriteError,
};
use crate::fs;
use crate::fs::{DirEntry, EntryView, FileStatus, Mode, OFlags, UserInfo};
use crate::text;
use vstd::prelude::*;

verus! {

/// How a backend file handle participates in seek.
#[non_exhaustive]
#[derive(Clone, Copy, Debug, PartialEq, Eq, Structural)]
pub enum SeekBehavior {
    /// Seek should fail with `SeekError::NonSeekable`.
    NonSeekable,
    /// Seek should always succeed and report offset zero.
    ZeroPosition,
    /// Seek should be resolved against the file position state.
    PositionBased,
}

/// A successful walk of directories through a backend.
pub struct WalkOutcome<Walking> {
    /// A component per walked element, in natural order.
    ///
    /// This can be empty when the first input component is a non-directory element.
    pub components: Vec<WalkedComponent>,
    /// The last handle of the walk thus far.
    pub last: Walking,
    /// Why this walk stopped at `last`.
    pub stop_reason: WalkStopReason,
}

/// Why a backend directory walk stopped.
#[derive(Clone, Copy, Debug, PartialEq, Eq, Structural)]
pub enum WalkStopReason {
    /// All requested components were walked, and `last` is the requested directory.
    CompleteDirectory,
    /// The next requested component exists but is not a directory; `last` is its parent.
    StoppedAtNonDirectory,
    /// The backend stopped early; walking should continue from `last`.
    Continue,
}

/// A backend item plus permission metadata.
#[derive(Debug)]
pub struct Permissioned<H> {
    pub item: H,
    pub permissions: PermissionCheck,
}

/// Whether a resolved component should be permission-checked by the resolver.
#[derive(Clone, Copy, Debug, PartialEq, Eq, Structural)]
pub enum PermissionCheck {
    /// The backend is self-enforcing permissions for this item.
    ByBackend,
    /// The resolver should check this permission metadata.
    ByResolver(PermissionInfo),
}

/// Per-component status returned by a backend walk.
#[derive(Clone, Copy, Debug, PartialEq, Eq, Structural)]
pub struct WalkedComponent {
    /// How permissions for this component should be checked.
    pub permissions: PermissionCheck,
}

/// Permission information for a particular component of the walk.
#[derive(Clone, Copy, Debug, PartialEq, Eq, Structural)]
pub struct PermissionInfo {
    pub mode: Mode,
    pub owner: UserInfo,
}

/// What a walk yields, as a mathematical value.
#[verifier::ext_equal]
pub struct WalkResult<V> {
    pub components: Seq<WalkedComponent>,
    pub last: V,
    pub stop_reason: WalkStopReason,
}

/// Whether a walk of `len` components stopped in a place that a backend may stop at: it walks no
/// more than it was asked to, and a complete walk has walked everything.
pub open spec fn walk_is_bounded<V>(walk: Result<WalkResult<V>, WalkError>, len: int) -> bool {
    walk is Ok ==> {
        &&& walk->Ok_0.components.len() <= len
        &&& walk->Ok_0.stop_reason == WalkStopReason::CompleteDirectory
            ==> walk->Ok_0.components.len() == len
    }
}

/// A backend that supports a file system, or a part of one.
///
/// A walk names the handle it has reached by a mathematical value, its view. What an operation
/// does is a relation that each backend defines; a walk is a function of the backend's state.
pub trait Backend: Sized {
    /// A handle used while walking.
    type Walking;

    /// An owned handle to an open directory.
    type Dir;

    /// An owned handle to an open file.
    type File;

    /// The value of a walking handle.
    type WalkingV;

    /// The value of a directory handle.
    type DirV;

    spec fn walking_view(w: Self::Walking) -> Self::WalkingV;

    spec fn dir_view(d: Self::Dir) -> Self::DirV;

    /// The backend's invariant.
    spec fn wf(&self) -> bool;

    /// Whether a walking handle belongs to this backend.
    spec fn has_walking(&self, w: Self::WalkingV) -> bool;

    /// Whether a directory handle belongs to this backend.
    spec fn has_dir(&self, d: Self::DirV) -> bool;

    /// Whether a file handle belongs to this backend.
    spec fn has_file(&self, f: Self::File) -> bool;

    spec fn root_spec(&self) -> Self::WalkingV;

    spec fn walk_spec(
        &self,
        from: Self::WalkingV,
        components: Seq<Seq<char>>,
    ) -> Result<WalkResult<Self::WalkingV>, WalkError>;

    /// Whether the backend can take these flags for this directory.
    spec fn can_own_dir(&self, dir: Self::WalkingV, flags: OFlags) -> bool;

    spec fn own_dir_spec(
        &self,
        dir: Self::WalkingV,
        flags: OFlags,
    ) -> Result<Self::DirV, OpenError>;

    spec fn walking_dir_spec(&self, dir: Self::DirV) -> Option<Self::WalkingV>;

    /// Whether the backend can take these flags for this file.
    spec fn can_open(&self, dir: Self::WalkingV, name: Seq<char>, flags: OFlags) -> bool;

    spec fn opens(
        &self,
        dir: Self::WalkingV,
        name: Seq<char>,
        flags: OFlags,
        after: &Self,
        r: Result<Permissioned<Self::File>, OpenError>,
    ) -> bool;

    spec fn lists(&self, dir: Self::DirV, r: Result<Seq<EntryView>, ReadDirError>) -> bool;

    /// Whether `read` can serve this request.
    spec fn can_read(&self, h: Self::File, len: nat, offset: usize) -> bool;

    spec fn reads(
        &self,
        h: Self::File,
        before: Seq<u8>,
        offset: usize,
        after: Seq<u8>,
        r: Result<usize, ReadError>,
    ) -> bool;

    /// The whole contents of a file that is backed by borrowed static data.
    spec fn static_spec(&self, h: Self::File) -> Option<Seq<u8>>;

    /// Whether `write` can serve this request.
    spec fn can_write(&self, h: Self::File, len: nat, offset: usize) -> bool;

    spec fn writes(
        &self,
        h: Self::File,
        data: Seq<u8>,
        offset: usize,
        after: &Self,
        r: Result<usize, WriteError>,
    ) -> bool;

    /// Whether `truncate` can serve this request.
    spec fn can_truncate(&self, h: Self::File, length: usize) -> bool;

    spec fn truncates(
        &self,
        h: Self::File,
        length: usize,
        after: &Self,
        r: Result<(), TruncateError>,
    ) -> bool;

    spec fn seek_spec(&self, h: Self::File) -> SeekBehavior;

    spec fn file_status_spec(&self, h: Self::File) -> Result<FileStatus, FileStatusError>;

    spec fn dir_status_spec(&self, d: Self::DirV) -> Result<FileStatus, FileStatusError>;

    spec fn creates(
        &self,
        dir: Self::DirV,
        name: Seq<char>,
        mode: Mode,
        after: &Self,
        r: Result<Self::File, OpenError>,
    ) -> bool;

    spec fn makes_dir(
        &self,
        dir: Self::DirV,
        name: Seq<char>,
        mode: Mode,
        after: &Self,
        r: Result<Self::DirV, MkdirError>,
    ) -> bool;

    spec fn unlinks(
        &self,
        dir: Self::DirV,
        name: Seq<char>,
        after: &Self,
        r: Result<(), UnlinkError>,
    ) -> bool;

    spec fn removes_dir(
        &self,
        dir: Self::DirV,
        name: Seq<char>,
        after: &Self,
        r: Result<(), RmdirError>,
    ) -> bool;

    spec fn chmods(
        &self,
        dir: Self::DirV,
        name: Seq<char>,
        mode: Mode,
        after: &Self,
        r: Result<(), ChmodError>,
    ) -> bool;

    spec fn chowns(
        &self,
        dir: Self::DirV,
        name: Seq<char>,
        user: Option<u16>,
        group: Option<u16>,
        after: &Self,
        r: Result<(), ChownError>,
    ) -> bool;

    /// The root is a handle of this backend.
    proof fn root_is_own(&self)
        requires
            self.wf(),
        ensures
            self.has_walking(self.root_spec()),
    ;

    /// A walk stays within the components it was given, and ends at a handle of this backend.
    proof fn walk_is_sound(&self, from: Self::WalkingV, components: Seq<Seq<char>>)
        requires
            self.wf(),
            self.has_walking(from),
        ensures
            walk_is_bounded(self.walk_spec(from, components), components.len() as int),
            self.walk_spec(from, components) is Ok ==> self.has_walking(
                self.walk_spec(from, components)->Ok_0.last,
            ),
    ;

    /// Obtain access to the root directory of the backend.
    fn root(&self) -> (r: Self::Walking)
        requires
            self.wf(),
        ensures
            Self::walking_view(r) == self.root_spec(),
            self.has_walking(Self::walking_view(r)),
    ;

    /// Walk one or more `components` starting from the `from` handle.
    ///
    /// This does not walk into files: if the next component exists but is not a directory, the
    /// walk stops at its parent.
    fn walk_directories(&self, from: Self::Walking, components: &[&str]) -> (r: Result<
        WalkOutcome<Self::Walking>,
        WalkError,
    >)
        requires
            self.wf(),
            self.has_walking(Self::walking_view(from)),
        ensures
            match (r, self.walk_spec(Self::walking_view(from), text::words(components@))) {
                (Ok(o), Ok(e)) => o.components@ == e.components && Self::walking_view(o.last)
                    == e.last && o.stop_reason == e.stop_reason,
                (Err(o), Err(e)) => o == e,
                _ => false,
            },
    ;

    /// Take an owned handle to a `dir` found via a walk.
    fn owned_dir_at(&self, dir: Self::Walking, flags: OFlags) -> (r: Result<Self::Dir, OpenError>)
        requires
            self.wf(),
            self.has_walking(Self::walking_view(dir)),
            self.can_own_dir(Self::walking_view(dir), flags),
        ensures
            match (r, self.own_dir_spec(Self::walking_view(dir), flags)) {
                (Ok(d), Ok(v)) => Self::dir_view(d) == v && self.has_dir(v),
                (Err(e), Err(f)) => e == f,
                _ => false,
            },
    ;

    /// Obtain a walking handle to an existing owned directory.
    fn walking_dir_at(&self, dir: &Self::Dir) -> (r: Option<Self::Walking>)
        requires
            self.wf(),
            self.has_dir(Self::dir_view(*dir)),
        ensures
            match (r, self.walking_dir_spec(Self::dir_view(*dir))) {
                (Some(w), Some(v)) => Self::walking_view(w) == v && self.has_walking(v),
                (None, None) => true,
                _ => false,
            },
    ;

    /// Open an existing file at `dir`.
    fn open_file_at(&mut self, dir: Self::Walking, name: &str, flags: OFlags) -> (r: Result<
        Permissioned<Self::File>,
        OpenError,
    >)
        requires
            old(self).wf(),
            old(self).has_walking(Self::walking_view(dir)),
            old(self).can_open(Self::walking_view(dir), name@, flags),
        ensures
            final(self).wf(),
            old(self).opens(Self::walking_view(dir), name@, flags, final(self), r),
            r is Ok ==> final(self).has_file(r->Ok_0.item),
    ;

    /// Read the directory entries of `dir`.
    fn list_dir_at(&self, dir: Self::Dir) -> (r: Result<Vec<DirEntry>, ReadDirError>)
        requires
            self.wf(),
            self.has_dir(Self::dir_view(dir)),
        ensures
            self.lists(
                Self::dir_view(dir),
                match r {
                    Ok(v) => Ok(fs::entry_views(v@)),
                    Err(e) => Err(e),
                },
            ),
    ;

    /// Read at `offset` into `buf`, returning the number of bytes read.
    fn read(&self, h: &Self::File, buf: &mut [u8], offset: usize) -> (r: Result<usize, ReadError>)
        requires
            self.wf(),
            self.has_file(*h),
            self.can_read(*h, old(buf)@.len(), offset),
        ensures
            final(buf)@.len() == old(buf)@.len(),
            self.reads(*h, old(buf)@, offset, final(buf)@, r),
    ;

    /// The whole contents of the file, if they are backed by borrowed static data.
    fn get_static_backing_data(&self, h: &Self::File) -> (r: Option<&'static [u8]>)
        requires
            self.wf(),
            self.has_file(*h),
        ensures
            match (r, self.static_spec(*h)) {
                (Some(data), Some(v)) => data@ == v,
                (None, None) => true,
                _ => false,
            },
    ;

    /// Write `data` into the file at `offset`, returning the number of bytes written.
    fn write(&mut self, h: &Self::File, data: &[u8], offset: usize) -> (r: Result<
        usize,
        WriteError,
    >)
        requires
            old(self).wf(),
            old(self).has_file(*h),
            old(self).can_write(*h, data@.len(), offset),
        ensures
            final(self).wf(),
            old(self).writes(*h, data@, offset, final(self), r),
    ;

    /// Truncate the file to the specified length, or pad it with zeros up to it.
    fn truncate(&mut self, h: &Self::File, length: usize) -> (r: Result<(), TruncateError>)
        requires
            old(self).wf(),
            old(self).has_file(*h),
            old(self).can_truncate(*h, length),
        ensures
            final(self).wf(),
            old(self).truncates(*h, length, final(self), r),
    ;

    /// Seek behaviour of an open file handle.
    fn seek_behavior(&self, h: &Self::File) -> (r: SeekBehavior)
        requires
            self.wf(),
            self.has_file(*h),
        ensures
            r == self.seek_spec(*h),
    ;

    /// Status of an open file handle.
    fn file_status(&self, h: &Self::File) -> (r: Result<FileStatus, FileStatusError>)
        requires
            self.wf(),
            self.has_file(*h),
        ensures
            r == self.file_status_spec(*h),
    ;

    /// Status of an open directory handle.
    fn dir_status(&self, d: &Self::Dir) -> (r: Result<FileStatus, FileStatusError>)
        requires
            self.wf(),
            self.has_dir(Self::dir_view(*d)),
        ensures
            r == self.dir_status_spec(Self::dir_view(*d)),
    ;

    /// Create a new file in `dir` with the given `name` and `mode`.
    fn create_file_at(&mut self, dir: Self::Dir, name: &str, mode: Mode) -> (r: Result<
        Self::File,
        OpenError,
    >)
        requires
            old(self).wf(),
            old(self).has_dir(Self::dir_view(dir)),
        ensures
            final(self).wf(),
            old(self).creates(Self::dir_view(dir), name@, mode, final(self), r),
            r is Ok ==> final(self).has_file(r->Ok_0),
    ;

    /// Create a new directory in `dir` with the given `name` and `mode`.
    fn mkdir_at(&mut self, dir: Self::Dir, name: &str, mode: Mode) -> (r: Result<
        Self::Dir,
        MkdirError,
    >)
        requires
            old(self).wf(),
            old(self).has_dir(Self::dir_view(dir)),
        ensures
            final(self).wf(),
            old(self).makes_dir(
                Self::dir_view(dir),
                name@,
                mode,
                final(self),
                match r {
                    Ok(d) => Ok(Self::dir_view(d)),
                    Err(e) => Err(e),
                },
            ),
            r is Ok ==> final(self).has_dir(Self::dir_view(r->Ok_0)),
    ;

    /// Remove the file `name` in `dir`.
    fn unlink_at(&mut self, dir: Self::Dir, name: &str) -> (r: Result<(), UnlinkError>)
        requires
            old(self).wf(),
            old(self).has_dir(Self::dir_view(dir)),
        ensures
            final(self).wf(),
            old(self).unlinks(Self::dir_view(dir), name@, final(self), r),
    ;

    /// Remove the directory `name` in `dir`.
    fn rmdir_at(&mut self, dir: Self::Dir, name: &str) -> (r: Result<(), RmdirError>)
        requires
            old(self).wf(),
            old(self).has_dir(Self::dir_view(dir)),
        ensures
            final(self).wf(),
            old(self).removes_dir(Self::dir_view(dir), name@, final(self), r),
    ;

    /// Update the permissions of the file or directory `name` in `dir`.
    fn chmod_at(&mut self, dir: Self::Dir, name: &str, mode: Mode) -> (r: Result<(), ChmodError>)
        requires
            old(self).wf(),
            old(self).has_dir(Self::dir_view(dir)),
        ensures
            final(self).wf(),
            old(self).chmods(Self::dir_view(dir), name@, mode, final(self), r),
    ;

    /// Update the owner and group of the file or directory `name` in `dir`.
    fn chown_at(
        &mut self,
        dir: Self::Dir,
        name: &str,
        user: Option<u16>,
        group: Option<u16>,
    ) -> (r: Result<(), ChownError>)
        requires
            old(self).wf(),
            old(self).has_dir(Self::dir_view(dir)),
        ensures
            final(self).wf(),
            old(self).chowns(Self::dir_view(dir), name@, user, group, final(self), r),
    ;
}

} // verus!
