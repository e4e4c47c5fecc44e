//! A backend that is one of two.
//!
//! All mounts of a composer are of one type. With this one, backends of different types can be
//! mounted side by side.
use crate::fs::backend::{
    Backend, Permissioned, SeekBehavior, WalkOutcome, WalkResult,
};
use crate::fs::errors::{
    ChmodError, ChownError, FileStatusError, MkdirError, OpenError, ReadDirError, ReadError,
    RmdirError, TruncateError, UnlinkError, WalkError, WriteError,
};
use crate::fs::{DirEntry, EntryView, FileStatus, Mode, OFlags};
use vstd::prelude::*;

verus! {

/// One of two.
#[derive(Debug)]
pub enum Either<A, B> {
    Left(A),
    Right(B),
}

/// A walk of the left backend, as one of the whole.
pub open spec fn left_walk<V, W>(r: Result<WalkResult<V>, WalkError>) -> Result<
    WalkResult<Either<V, W>>,
    WalkError,
> {
    match r {
        Ok(o) => Ok(
            WalkResult {
                components: o.components,
                last: Either::Left(o.last),
                stop_reason: o.stop_reason,
            },
        ),
        Err(e) => Err(e),
    }
}

/// A walk of the right backend, as one of the whole.
pub open spec fn right_walk<V, W>(r: Result<WalkResult<W>, WalkError>) -> Result<
    WalkResult<Either<V, W>>,
    WalkError,
> {
    match r {
        Ok(o) => Ok(
            WalkResult {
                components: o.components,
                last: Either::Right(o.last),
                stop_reason: o.stop_reason,
            },
        ),
        Err(e) => Err(e),
    }
}

/// A file of the whole, as one of the left backend.
pub open spec fn as_left<V, W>(r: Result<Permissioned<Either<V, W>>, OpenError>) -> Result<
    Permissioned<V>,
    OpenError,
> {
    match r {
        Ok(p) => Ok(Permissioned { item: p.item->Left_0, permissions: p.permissions }),
        Err(e) => Err(e),
    }
}

/// A file of the whole, as one of the right backend.
pub open spec fn as_right<V, W>(r: Result<Permissioned<Either<V, W>>, OpenError>) -> Result<
    Permissioned<W>,
    OpenError,
> {
    match r {
        Ok(p) => Ok(Permissioned { item: p.item->Right_0, permissions: p.permissions }),
        Err(e) => Err(e),
    }
}

/// A result of the whole, as one of the left backend.
pub open spec fn left_result<V, W, E>(r: Result<Either<V, W>, E>) -> Result<V, E> {
    match r {
        Ok(v) => Ok(v->Left_0),
        Err(e) => Err(e),
    }
}

/// A result of the whole, as one of the right backend.
pub open spec fn right_result<V, W, E>(r: Result<Either<V, W>, E>) -> Result<W, E> {
    match r {
        Ok(v) => Ok(v->Right_0),
        Err(e) => Err(e),
    }
}

impl<A: Backend, B: Backend> Backend for Either<A, B> {
    type Walking = Either<A::Walking, B::Walking>;

    type Dir = Either<A::Dir, B::Dir>;

    type File = Either<A::File, B::File>;

    type WalkingV = Either<A::WalkingV, B::WalkingV>;

    type DirV = Either<A::DirV, B::DirV>;

    open spec fn walking_view(w: Self::Walking) -> Self::WalkingV {
        match w {
            Either::Left(w) => Either::Left(A::walking_view(w)),
            Either::Right(w) => Either::Right(B::walking_view(w)),
        }
    }

    open spec fn dir_view(d: Self::Dir) -> Self::DirV {
        match d {
            Either::Left(d) => Either::Left(A::dir_view(d)),
            Either::Right(d) => Either::Right(B::dir_view(d)),
        }
    }

    open spec fn wf(&self) -> bool {
        match self {
            Either::Left(a) => a.wf(),
            Either::Right(b) => b.wf(),
        }
    }

    open spec fn root_spec(&self) -> Self::WalkingV {
        match self {
            Either::Left(a) => Either::Left(a.root_spec()),
            Either::Right(b) => Either::Right(b.root_spec()),
        }
    }

    open spec fn walk_spec(
        &self,
        from: Self::WalkingV,
        components: Seq<Seq<char>>,
    ) -> Result<WalkResult<Self::WalkingV>, WalkError> {
        match (self, from) {
            (Either::Left(a), Either::Left(w)) => left_walk(a.walk_spec(w, components)),
            (Either::Right(b), Either::Right(w)) => right_walk(b.walk_spec(w, components)),
            _ => Err(WalkError::Io),
        }
    }

    open spec fn own_dir_spec(&self, dir: Self::WalkingV, flags: OFlags) -> Result<
        Self::DirV,
        OpenError,
    > {
        match (self, dir) {
            (Either::Left(a), Either::Left(w)) => match a.own_dir_spec(w, flags) {
                Ok(d) => Ok(Either::Left(d)),
                Err(e) => Err(e),
            },
            (Either::Right(b), Either::Right(w)) => match b.own_dir_spec(w, flags) {
                Ok(d) => Ok(Either::Right(d)),
                Err(e) => Err(e),
            },
            _ => Err(OpenError::Io),
        }
    }

    open spec fn walking_dir_spec(&self, dir: Self::DirV) -> Option<Self::WalkingV> {
        match (self, dir) {
            (Either::Left(a), Either::Left(d)) => match a.walking_dir_spec(d) {
                Some(w) => Some(Either::Left(w)),
                None => None,
            },
            (Either::Right(b), Either::Right(d)) => match b.walking_dir_spec(d) {
                Some(w) => Some(Either::Right(w)),
                None => None,
            },
            _ => None,
        }
    }

    open spec fn opens(
        &self,
        dir: Self::WalkingV,
        name: Seq<char>,
        flags: OFlags,
        after: &Self,
        r: Result<Permissioned<Self::File>, OpenError>,
    ) -> bool {
        match (self, dir, after) {
            (Either::Left(a), Either::Left(w), Either::Left(z)) => (r is Ok ==> r->Ok_0.item is Left)
                && a.opens(w, name, flags, z, as_left(r)),
            (Either::Right(b), Either::Right(w), Either::Right(z)) => (r is Ok ==> r->Ok_0.item
                is Right) && b.opens(w, name, flags, z, as_right(r)),
            _ => false,
        }
    }

    open spec fn creates(
        &self,
        dir: Self::DirV,
        name: Seq<char>,
        mode: Mode,
        after: &Self,
        r: Result<Self::File, OpenError>,
    ) -> bool {
        match (self, dir, after) {
            (Either::Left(a), Either::Left(d), Either::Left(z)) => (r is Ok ==> r->Ok_0 is Left)
                && a.creates(d, name, mode, z, left_result(r)),
            (Either::Right(b), Either::Right(d), Either::Right(z)) => (r is Ok ==> r->Ok_0 is Right)
                && b.creates(d, name, mode, z, right_result(r)),
            _ => false,
        }
    }

    open spec fn makes_dir(
        &self,
        dir: Self::DirV,
        name: Seq<char>,
        mode: Mode,
        after: &Self,
        r: Result<Self::DirV, MkdirError>,
    ) -> bool {
        match (self, dir, after) {
            (Either::Left(a), Either::Left(d), Either::Left(z)) => (r is Ok ==> r->Ok_0 is Left)
                && a.makes_dir(d, name, mode, z, left_result(r)),
            (Either::Right(b), Either::Right(d), Either::Right(z)) => (r is Ok ==> r->Ok_0 is Right)
                && b.makes_dir(d, name, mode, z, right_result(r)),
            _ => false,
        }
    }

    open spec fn has_walking(&self, w: Self::WalkingV) -> bool {
        match (self, w) {
            (Either::Left(a), Either::Left(x)) => a.has_walking(x),
            (Either::Right(b), Either::Right(x)) => b.has_walking(x),
            _ => false,
        }
    }

    open spec fn has_dir(&self, d: Self::DirV) -> bool {
        match (self, d) {
            (Either::Left(a), Either::Left(x)) => a.has_dir(x),
            (Either::Right(b), Either::Right(x)) => b.has_dir(x),
            _ => false,
        }
    }

    open spec fn has_file(&self, f: Self::File) -> bool {
        match (self, f) {
            (Either::Left(a), Either::Left(x)) => a.has_file(x),
            (Either::Right(b), Either::Right(x)) => b.has_file(x),
            _ => false,
        }
    }

    open spec fn can_own_dir(&self, dir: Self::WalkingV, flags: OFlags) -> bool {
        match (self, dir) {
            (Either::Left(a), Either::Left(x)) => a.can_own_dir(x, flags),
            (Either::Right(b), Either::Right(x)) => b.can_own_dir(x, flags),
            _ => false,
        }
    }

    open spec fn can_open(&self, dir: Self::WalkingV, name: Seq<char>, flags: OFlags) -> bool {
        match (self, dir) {
            (Either::Left(a), Either::Left(x)) => a.can_open(x, name, flags),
            (Either::Right(b), Either::Right(x)) => b.can_open(x, name, flags),
            _ => false,
        }
    }

    open spec fn lists(&self, dir: Self::DirV, r: Result<Seq<EntryView>, ReadDirError>) -> bool {
        match (self, dir) {
            (Either::Left(a), Either::Left(x)) => a.lists(x, r),
            (Either::Right(b), Either::Right(x)) => b.lists(x, r),
            _ => false,
        }
    }

    open spec fn can_read(&self, h: Self::File, len: nat, offset: usize) -> bool {
        match (self, h) {
            (Either::Left(a), Either::Left(x)) => a.can_read(x, len, offset),
            (Either::Right(b), Either::Right(x)) => b.can_read(x, len, offset),
            _ => false,
        }
    }

    open spec fn reads(&self, h: Self::File, before: Seq<u8>, offset: usize, after: Seq<u8>, r: Result<usize, ReadError>) -> bool {
        match (self, h) {
            (Either::Left(a), Either::Left(x)) => a.reads(x, before, offset, after, r),
            (Either::Right(b), Either::Right(x)) => b.reads(x, before, offset, after, r),
            _ => false,
        }
    }

    open spec fn static_spec(&self, h: Self::File) -> Option<Seq<u8>> {
        match (self, h) {
            (Either::Left(a), Either::Left(x)) => a.static_spec(x),
            (Either::Right(b), Either::Right(x)) => b.static_spec(x),
            _ => None,
        }
    }

    open spec fn can_write(&self, h: Self::File, len: nat, offset: usize) -> bool {
        match (self, h) {
            (Either::Left(a), Either::Left(x)) => a.can_write(x, len, offset),
            (Either::Right(b), Either::Right(x)) => b.can_write(x, len, offset),
            _ => false,
        }
    }

    open spec fn can_truncate(&self, h: Self::File, length: usize) -> bool {
        match (self, h) {
            (Either::Left(a), Either::Left(x)) => a.can_truncate(x, length),
            (Either::Right(b), Either::Right(x)) => b.can_truncate(x, length),
            _ => false,
        }
    }

    open spec fn seek_spec(&self, h: Self::File) -> SeekBehavior {
        match (self, h) {
            (Either::Left(a), Either::Left(x)) => a.seek_spec(x),
            (Either::Right(b), Either::Right(x)) => b.seek_spec(x),
            _ => SeekBehavior::NonSeekable,
        }
    }

    open spec fn file_status_spec(&self, h: Self::File) -> Result<FileStatus, FileStatusError> {
        match (self, h) {
            (Either::Left(a), Either::Left(x)) => a.file_status_spec(x),
            (Either::Right(b), Either::Right(x)) => b.file_status_spec(x),
            _ => Err(FileStatusError::Io),
        }
    }

    open spec fn dir_status_spec(&self, d: Self::DirV) -> Result<FileStatus, FileStatusError> {
        match (self, d) {
            (Either::Left(a), Either::Left(x)) => a.dir_status_spec(x),
            (Either::Right(b), Either::Right(x)) => b.dir_status_spec(x),
            _ => Err(FileStatusError::Io),
        }
    }

    open spec fn writes(&self, h: Self::File, data: Seq<u8>, offset: usize, after: &Self, r: Result<usize, WriteError>) -> bool {
        match (self, h, after) {
            (Either::Left(a), Either::Left(x), Either::Left(z)) => a.writes(x, data, offset, z, r),
            (Either::Right(b), Either::Right(x), Either::Right(z)) => b.writes(x, data, offset, z, r),
            _ => false,
        }
    }

    open spec fn truncates(&self, h: Self::File, length: usize, after: &Self, r: Result<(), TruncateError>) -> bool {
        match (self, h, after) {
            (Either::Left(a), Either::Left(x), Either::Left(z)) => a.truncates(x, length, z, r),
            (Either::Right(b), Either::Right(x), Either::Right(z)) => b.truncates(x, length, z, r),
            _ => false,
        }
    }

    open spec fn unlinks(&self, dir: Self::DirV, name: Seq<char>, after: &Self, r: Result<(), UnlinkError>) -> bool {
        match (self, dir, after) {
            (Either::Left(a), Either::Left(x), Either::Left(z)) => a.unlinks(x, name, z, r),
            (Either::Right(b), Either::Right(x), Either::Right(z)) => b.unlinks(x, name, z, r),
            _ => false,
        }
    }

    open spec fn removes_dir(&self, dir: Self::DirV, name: Seq<char>, after: &Self, r: Result<(), RmdirError>) -> bool {
        match (self, dir, after) {
            (Either::Left(a), Either::Left(x), Either::Left(z)) => a.removes_dir(x, name, z, r),
            (Either::Right(b), Either::Right(x), Either::Right(z)) => b.removes_dir(x, name, z, r),
            _ => false,
        }
    }

    open spec fn chmods(&self, dir: Self::DirV, name: Seq<char>, mode: Mode, after: &Self, r: Result<(), ChmodError>) -> bool {
        match (self, dir, after) {
            (Either::Left(a), Either::Left(x), Either::Left(z)) => a.chmods(x, name, mode, z, r),
            (Either::Right(b), Either::Right(x), Either::Right(z)) => b.chmods(x, name, mode, z, r),
            _ => false,
        }
    }

    open spec fn chowns(&self, dir: Self::DirV, name: Seq<char>, user: Option<u16>, group: Option<u16>, after: &Self, r: Result<(), ChownError>) -> bool {
        match (self, dir, after) {
            (Either::Left(a), Either::Left(x), Either::Left(z)) => a.chowns(x, name, user, group, z, r),
            (Either::Right(b), Either::Right(x), Either::Right(z)) => b.chowns(x, name, user, group, z, r),
            _ => false,
        }
    }

    proof fn root_is_own(&self) {
        match self {
            Either::Left(a) => a.root_is_own(),
            Either::Right(b) => b.root_is_own(),
        }
    }

    proof fn walk_is_sound(&self, from: Self::WalkingV, components: Seq<Seq<char>>) {
        match (self, from) {
            (Either::Left(a), Either::Left(w)) => a.walk_is_sound(w, components),
            (Either::Right(b), Either::Right(w)) => b.walk_is_sound(w, components),
            _ => {},
        }
    }

    fn root(&self) -> (r: Self::Walking) {
        match self {
            Either::Left(a) => Either::Left(a.root()),
            Either::Right(b) => Either::Right(b.root()),
        }
    }

    fn walk_directories(&self, from: Self::Walking, components: &[&str]) -> (r: Result<
        WalkOutcome<Self::Walking>,
        WalkError,
    >) {
        match (self, from) {
            (Either::Left(a), Either::Left(w)) => match a.walk_directories(w, components) {
                Ok(o) => Ok(
                    WalkOutcome {
                        components: o.components,
                        last: Either::Left(o.last),
                        stop_reason: o.stop_reason,
                    },
                ),
                Err(e) => Err(e),
            },
            (Either::Right(b), Either::Right(w)) => match b.walk_directories(w, components) {
                Ok(o) => Ok(
                    WalkOutcome {
                        components: o.components,
                        last: Either::Right(o.last),
                        stop_reason: o.stop_reason,
                    },
                ),
                Err(e) => Err(e),
            },
            _ => Err(WalkError::Io),
        }
    }

    fn owned_dir_at(&self, dir: Self::Walking, flags: OFlags) -> (r: Result<Self::Dir, OpenError>) {
        match (self, dir) {
            (Either::Left(a), Either::Left(w)) => match a.owned_dir_at(w, flags) {
                Ok(d) => Ok(Either::Left(d)),
                Err(e) => Err(e),
            },
            (Either::Right(b), Either::Right(w)) => match b.owned_dir_at(w, flags) {
                Ok(d) => Ok(Either::Right(d)),
                Err(e) => Err(e),
            },
            _ => Err(OpenError::Io),
        }
    }

    fn walking_dir_at(&self, dir: &Self::Dir) -> (r: Option<Self::Walking>) {
        match (self, dir) {
            (Either::Left(a), Either::Left(d)) => match a.walking_dir_at(d) {
                Some(w) => Some(Either::Left(w)),
                None => None,
            },
            (Either::Right(b), Either::Right(d)) => match b.walking_dir_at(d) {
                Some(w) => Some(Either::Right(w)),
                None => None,
            },
            _ => None,
        }
    }

    fn open_file_at(&mut self, dir: Self::Walking, name: &str, flags: OFlags) -> (r: Result<
        Permissioned<Self::File>,
        OpenError,
    >) {
        match (self, dir) {
            (Either::Left(a), Either::Left(w)) => match a.open_file_at(w, name, flags) {
                Ok(p) => Ok(
                    Permissioned { item: Either::Left(p.item), permissions: p.permissions },
                ),
                Err(e) => Err(e),
            },
            (Either::Right(b), Either::Right(w)) => match b.open_file_at(w, name, flags) {
                Ok(p) => Ok(
                    Permissioned { item: Either::Right(p.item), permissions: p.permissions },
                ),
                Err(e) => Err(e),
            },
            _ => Err(OpenError::Io),
        }
    }

    fn create_file_at(&mut self, dir: Self::Dir, name: &str, mode: Mode) -> (r: Result<
        Self::File,
        OpenError,
    >) {
        match (self, dir) {
            (Either::Left(a), Either::Left(d)) => match a.create_file_at(d, name, mode) {
                Ok(f) => Ok(Either::Left(f)),
                Err(e) => Err(e),
            },
            (Either::Right(b), Either::Right(d)) => match b.create_file_at(d, name, mode) {
                Ok(f) => Ok(Either::Right(f)),
                Err(e) => Err(e),
            },
            _ => Err(OpenError::Io),
        }
    }

    fn mkdir_at(&mut self, dir: Self::Dir, name: &str, mode: Mode) -> (r: Result<
        Self::Dir,
        MkdirError,
    >) {
        match (self, dir) {
            (Either::Left(a), Either::Left(d)) => match a.mkdir_at(d, name, mode) {
                Ok(f) => Ok(Either::Left(f)),
                Err(e) => Err(e),
            },
            (Either::Right(b), Either::Right(d)) => match b.mkdir_at(d, name, mode) {
                Ok(f) => Ok(Either::Right(f)),
                Err(e) => Err(e),
            },
            _ => Err(MkdirError::Io),
        }
    }

    fn list_dir_at(&self, dir: Self::Dir) -> (r: Result<Vec<DirEntry>, ReadDirError>) {
        match (self, dir) {
            (Either::Left(a), Either::Left(x)) => a.list_dir_at(x),
            (Either::Right(b), Either::Right(x)) => b.list_dir_at(x),
            _ => Err(ReadDirError::Io),
        }
    }

    fn read(&self, h: &Self::File, buf: &mut [u8], offset: usize) -> (r: Result<usize, ReadError>) {
        match (self, h) {
            (Either::Left(a), Either::Left(x)) => a.read(x, buf, offset),
            (Either::Right(b), Either::Right(x)) => b.read(x, buf, offset),
            _ => Err(ReadError::Io),
        }
    }

    fn get_static_backing_data(&self, h: &Self::File) -> (r: Option<&'static [u8]>) {
        match (self, h) {
            (Either::Left(a), Either::Left(x)) => a.get_static_backing_data(x),
            (Either::Right(b), Either::Right(x)) => b.get_static_backing_data(x),
            _ => None,
        }
    }

    fn write(&mut self, h: &Self::File, data: &[u8], offset: usize) -> (r: Result<usize, WriteError>) {
        match (self, h) {
            (Either::Left(a), Either::Left(x)) => a.write(x, data, offset),
            (Either::Right(b), Either::Right(x)) => b.write(x, data, offset),
            _ => Err(WriteError::Io),
        }
    }

    fn truncate(&mut self, h: &Self::File, length: usize) -> (r: Result<(), TruncateError>) {
        match (self, h) {
            (Either::Left(a), Either::Left(x)) => a.truncate(x, length),
            (Either::Right(b), Either::Right(x)) => b.truncate(x, length),
            _ => Err(TruncateError::Io),
        }
    }

    fn seek_behavior(&self, h: &Self::File) -> (r: SeekBehavior) {
        match (self, h) {
            (Either::Left(a), Either::Left(x)) => a.seek_behavior(x),
            (Either::Right(b), Either::Right(x)) => b.seek_behavior(x),
            _ => SeekBehavior::NonSeekable,
        }
    }

    fn file_status(&self, h: &Self::File) -> (r: Result<FileStatus, FileStatusError>) {
        match (self, h) {
            (Either::Left(a), Either::Left(x)) => a.file_status(x),
            (Either::Right(b), Either::Right(x)) => b.file_status(x),
            _ => Err(FileStatusError::Io),
        }
    }

    fn dir_status(&self, d: &Self::Dir) -> (r: Result<FileStatus, FileStatusError>) {
        match (self, d) {
            (Either::Left(a), Either::Left(x)) => a.dir_status(x),
            (Either::Right(b), Either::Right(x)) => b.dir_status(x),
            _ => Err(FileStatusError::Io),
        }
    }

    fn unlink_at(&mut self, dir: Self::Dir, name: &str) -> (r: Result<(), UnlinkError>) {
        match (self, dir) {
            (Either::Left(a), Either::Left(x)) => a.unlink_at(x, name),
            (Either::Right(b), Either::Right(x)) => b.unlink_at(x, name),
            _ => Err(UnlinkError::Io),
        }
    }

    fn rmdir_at(&mut self, dir: Self::Dir, name: &str) -> (r: Result<(), RmdirError>) {
        match (self, dir) {
            (Either::Left(a), Either::Left(x)) => a.rmdir_at(x, name),
            (Either::Right(b), Either::Right(x)) => b.rmdir_at(x, name),
            _ => Err(RmdirError::Io),
        }
    }

    fn chmod_at(&mut self, dir: Self::Dir, name: &str, mode: Mode) -> (r: Result<(), ChmodError>) {
        match (self, dir) {
            (Either::Left(a), Either::Left(x)) => a.chmod_at(x, name, mode),
            (Either::Right(b), Either::Right(x)) => b.chmod_at(x, name, mode),
            _ => Err(ChmodError::Io),
        }
    }

    fn chown_at(&mut self, dir: Self::Dir, name: &str, user: Option<u16>, group: Option<u16>) -> (r: Result<(), ChownError>) {
        match (self, dir) {
            (Either::Left(a), Either::Left(x)) => a.chown_at(x, name, user, group),
            (Either::Right(b), Either::Right(x)) => b.chown_at(x, name, user, group),
            _ => Err(ChownError::Io),
        }
    }
}

} // verus!
