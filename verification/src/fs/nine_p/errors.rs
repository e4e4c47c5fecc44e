//! How errors of a 9P server are reported by file-system operations.
use crate::fs::errors::{
    ChmodError, ChownError, FileStatusError, MkdirError, OpenError, PathError, ReadDirError,
    ReadError, RmdirError, SeekError, TruncateError, UnlinkError, WriteError,
};
use vstd::prelude::*;

verus! {

pub const EPERM: u32 = 1;

pub const ENOENT: u32 = 2;

pub const EACCES: u32 = 13;

pub const EEXIST: u32 = 17;

pub const ENOTDIR: u32 = 20;

pub const EISDIR: u32 = 21;

pub const EINVAL: u32 = 22;

pub const ESPIPE: u32 = 29;

pub const ENAMETOOLONG: u32 = 36;

pub const ENOSYS: u32 = 38;

pub const ENOTEMPTY: u32 = 39;

pub const EOPNOTSUPP: u32 = 95;

/// Error type for 9P operations.
#[derive(Clone, Copy, Debug, PartialEq, Eq, Structural)]
pub enum Error {
    /// I/O error
    Io,
    /// Invalid response from server
    InvalidResponse,
    /// Invalid pathname
    InvalidPathname,
    /// Error reported by the 9P server, carrying the raw errno
    Remote(u32),
}

/// What an error is reported as by open operations.
pub open spec fn open_error_of(e: Error) -> OpenError {
    match e {
        Error::InvalidPathname => OpenError::PathError(PathError::InvalidPathname),
        Error::Remote(errno) => if errno == ENOENT {
            OpenError::PathError(PathError::NoSuchFileOrDirectory)
        } else if errno == EEXIST {
            OpenError::AlreadyExists
        } else if errno == EPERM || errno == EACCES {
            OpenError::AccessNotAllowed
        } else if errno == ENOTDIR {
            OpenError::PathError(PathError::ComponentNotADirectory)
        } else if errno == ENAMETOOLONG {
            OpenError::PathError(PathError::InvalidPathname)
        } else {
            OpenError::Io
        },
        Error::Io | Error::InvalidResponse => OpenError::Io,
    }
}

impl From<Error> for OpenError {
    fn from(e: Error) -> (r: Self) {
        match e {
            Error::InvalidPathname => OpenError::PathError(PathError::InvalidPathname),
            Error::Remote(errno) => if errno == ENOENT {
                OpenError::PathError(PathError::NoSuchFileOrDirectory)
            } else if errno == EEXIST {
                OpenError::AlreadyExists
            } else if errno == EPERM || errno == EACCES {
                OpenError::AccessNotAllowed
            } else if errno == ENOTDIR {
                OpenError::PathError(PathError::ComponentNotADirectory)
            } else if errno == ENAMETOOLONG {
                OpenError::PathError(PathError::InvalidPathname)
            } else {
                OpenError::Io
            },
            Error::Io | Error::InvalidResponse => OpenError::Io,
        }
    }
}

impl vstd::std_specs::convert::FromSpecImpl<Error> for OpenError {
    open spec fn obeys_from_spec() -> bool {
        true
    }

    open spec fn from_spec(e: Error) -> Self {
        open_error_of(e)
    }
}

/// What an error is reported as by read operations.
pub open spec fn read_error_of(e: Error) -> ReadError {
    match e {
        Error::InvalidPathname => ReadError::Io,
        Error::Remote(errno) => if errno == ENOENT || errno == EISDIR {
            ReadError::NotAFile
        } else if errno == EPERM || errno == EACCES {
            ReadError::NotForReading
        } else {
            ReadError::Io
        },
        Error::Io | Error::InvalidResponse => ReadError::Io,
    }
}

impl From<Error> for ReadError {
    fn from(e: Error) -> (r: Self) {
        match e {
            Error::InvalidPathname => ReadError::Io,
            Error::Remote(errno) => if errno == ENOENT || errno == EISDIR {
                ReadError::NotAFile
            } else if errno == EPERM || errno == EACCES {
                ReadError::NotForReading
            } else {
                ReadError::Io
            },
            Error::Io | Error::InvalidResponse => ReadError::Io,
        }
    }
}

impl vstd::std_specs::convert::FromSpecImpl<Error> for ReadError {
    open spec fn obeys_from_spec() -> bool {
        true
    }

    open spec fn from_spec(e: Error) -> Self {
        read_error_of(e)
    }
}

/// What an error is reported as by write operations.
pub open spec fn write_error_of(e: Error) -> WriteError {
    match e {
        Error::InvalidPathname => WriteError::Io,
        Error::Remote(errno) => if errno == ENOENT || errno == EISDIR {
            WriteError::NotAFile
        } else if errno == EPERM || errno == EACCES {
            WriteError::NotForWriting
        } else {
            WriteError::Io
        },
        Error::Io | Error::InvalidResponse => WriteError::Io,
    }
}

impl From<Error> for WriteError {
    fn from(e: Error) -> (r: Self) {
        match e {
            Error::InvalidPathname => WriteError::Io,
            Error::Remote(errno) => if errno == ENOENT || errno == EISDIR {
                WriteError::NotAFile
            } else if errno == EPERM || errno == EACCES {
                WriteError::NotForWriting
            } else {
                WriteError::Io
            },
            Error::Io | Error::InvalidResponse => WriteError::Io,
        }
    }
}

impl vstd::std_specs::convert::FromSpecImpl<Error> for WriteError {
    open spec fn obeys_from_spec() -> bool {
        true
    }

    open spec fn from_spec(e: Error) -> Self {
        write_error_of(e)
    }
}

/// What an error is reported as by mkdir operations.
pub open spec fn mkdir_error_of(e: Error) -> MkdirError {
    match e {
        Error::InvalidPathname => MkdirError::PathError(PathError::InvalidPathname),
        Error::Remote(errno) => if errno == ENOENT {
            MkdirError::PathError(PathError::NoSuchFileOrDirectory)
        } else if errno == EEXIST {
            MkdirError::AlreadyExists
        } else if errno == EPERM || errno == EACCES {
            MkdirError::NoWritePerms
        } else if errno == ENOTDIR {
            MkdirError::PathError(PathError::ComponentNotADirectory)
        } else if errno == ENAMETOOLONG {
            MkdirError::PathError(PathError::InvalidPathname)
        } else {
            MkdirError::Io
        },
        Error::Io | Error::InvalidResponse => MkdirError::Io,
    }
}

impl From<Error> for MkdirError {
    fn from(e: Error) -> (r: Self) {
        match e {
            Error::InvalidPathname => MkdirError::PathError(PathError::InvalidPathname),
            Error::Remote(errno) => if errno == ENOENT {
                MkdirError::PathError(PathError::NoSuchFileOrDirectory)
            } else if errno == EEXIST {
                MkdirError::AlreadyExists
            } else if errno == EPERM || errno == EACCES {
                MkdirError::NoWritePerms
            } else if errno == ENOTDIR {
                MkdirError::PathError(PathError::ComponentNotADirectory)
            } else if errno == ENAMETOOLONG {
                MkdirError::PathError(PathError::InvalidPathname)
            } else {
                MkdirError::Io
            },
            Error::Io | Error::InvalidResponse => MkdirError::Io,
        }
    }
}

impl vstd::std_specs::convert::FromSpecImpl<Error> for MkdirError {
    open spec fn obeys_from_spec() -> bool {
        true
    }

    open spec fn from_spec(e: Error) -> Self {
        mkdir_error_of(e)
    }
}

/// What an error is reported as by read dir operations.
pub open spec fn read_dir_error_of(e: Error) -> ReadDirError {
    match e {
        Error::InvalidPathname => ReadDirError::Io,
        Error::Remote(errno) => if errno == ENOENT || errno == ENOTDIR {
            ReadDirError::NotADirectory
        } else {
            ReadDirError::Io
        },
        Error::Io | Error::InvalidResponse => ReadDirError::Io,
    }
}

impl From<Error> for ReadDirError {
    fn from(e: Error) -> (r: Self) {
        match e {
            Error::InvalidPathname => ReadDirError::Io,
            Error::Remote(errno) => if errno == ENOENT || errno == ENOTDIR {
                ReadDirError::NotADirectory
            } else {
                ReadDirError::Io
            },
            Error::Io | Error::InvalidResponse => ReadDirError::Io,
        }
    }
}

impl vstd::std_specs::convert::FromSpecImpl<Error> for ReadDirError {
    open spec fn obeys_from_spec() -> bool {
        true
    }

    open spec fn from_spec(e: Error) -> Self {
        read_dir_error_of(e)
    }
}

/// What an error is reported as by unlink operations.
pub open spec fn unlink_error_of(e: Error) -> UnlinkError {
    match e {
        Error::InvalidPathname => UnlinkError::PathError(PathError::InvalidPathname),
        Error::Remote(errno) => if errno == ENOENT {
            UnlinkError::PathError(PathError::NoSuchFileOrDirectory)
        } else if errno == EISDIR {
            UnlinkError::IsADirectory
        } else if errno == EPERM || errno == EACCES {
            UnlinkError::NoWritePerms
        } else if errno == ENOTDIR {
            UnlinkError::PathError(PathError::ComponentNotADirectory)
        } else if errno == ENAMETOOLONG {
            UnlinkError::PathError(PathError::InvalidPathname)
        } else {
            UnlinkError::Io
        },
        Error::Io | Error::InvalidResponse => UnlinkError::Io,
    }
}

impl From<Error> for UnlinkError {
    fn from(e: Error) -> (r: Self) {
        match e {
            Error::InvalidPathname => UnlinkError::PathError(PathError::InvalidPathname),
            Error::Remote(errno) => if errno == ENOENT {
                UnlinkError::PathError(PathError::NoSuchFileOrDirectory)
            } else if errno == EISDIR {
                UnlinkError::IsADirectory
            } else if errno == EPERM || errno == EACCES {
                UnlinkError::NoWritePerms
            } else if errno == ENOTDIR {
                UnlinkError::PathError(PathError::ComponentNotADirectory)
            } else if errno == ENAMETOOLONG {
                UnlinkError::PathError(PathError::InvalidPathname)
            } else {
                UnlinkError::Io
            },
            Error::Io | Error::InvalidResponse => UnlinkError::Io,
        }
    }
}

impl vstd::std_specs::convert::FromSpecImpl<Error> for UnlinkError {
    open spec fn obeys_from_spec() -> bool {
        true
    }

    open spec fn from_spec(e: Error) -> Self {
        unlink_error_of(e)
    }
}

/// What an error is reported as by rmdir operations.
pub open spec fn rmdir_error_of(e: Error) -> RmdirError {
    match e {
        Error::InvalidPathname => RmdirError::PathError(PathError::InvalidPathname),
        Error::Remote(errno) => if errno == ENOENT {
            RmdirError::PathError(PathError::NoSuchFileOrDirectory)
        } else if errno == ENOTDIR {
            RmdirError::NotADirectory
        } else if errno == EPERM || errno == EACCES {
            RmdirError::NoWritePerms
        } else if errno == ENAMETOOLONG {
            RmdirError::PathError(PathError::InvalidPathname)
        } else if errno == ENOTEMPTY {
            RmdirError::NotEmpty
        } else {
            RmdirError::Io
        },
        Error::Io | Error::InvalidResponse => RmdirError::Io,
    }
}

impl From<Error> for RmdirError {
    fn from(e: Error) -> (r: Self) {
        match e {
            Error::InvalidPathname => RmdirError::PathError(PathError::InvalidPathname),
            Error::Remote(errno) => if errno == ENOENT {
                RmdirError::PathError(PathError::NoSuchFileOrDirectory)
            } else if errno == ENOTDIR {
                RmdirError::NotADirectory
            } else if errno == EPERM || errno == EACCES {
                RmdirError::NoWritePerms
            } else if errno == ENAMETOOLONG {
                RmdirError::PathError(PathError::InvalidPathname)
            } else if errno == ENOTEMPTY {
                RmdirError::NotEmpty
            } else {
                RmdirError::Io
            },
            Error::Io | Error::InvalidResponse => RmdirError::Io,
        }
    }
}

impl vstd::std_specs::convert::FromSpecImpl<Error> for RmdirError {
    open spec fn obeys_from_spec() -> bool {
        true
    }

    open spec fn from_spec(e: Error) -> Self {
        rmdir_error_of(e)
    }
}

/// What an error is reported as by file status operations.
pub open spec fn file_status_error_of(e: Error) -> FileStatusError {
    match e {
        Error::InvalidPathname => FileStatusError::PathError(PathError::InvalidPathname),
        Error::Remote(errno) => if errno == ENOENT {
            FileStatusError::PathError(PathError::NoSuchFileOrDirectory)
        } else if errno == ENAMETOOLONG {
            FileStatusError::PathError(PathError::InvalidPathname)
        } else if errno == ENOTDIR {
            FileStatusError::PathError(PathError::ComponentNotADirectory)
        } else if errno == EPERM || errno == EACCES {
            FileStatusError::PathError(PathError::NoSearchPerms)
        } else {
            FileStatusError::Io
        },
        Error::Io | Error::InvalidResponse => FileStatusError::Io,
    }
}

impl From<Error> for FileStatusError {
    fn from(e: Error) -> (r: Self) {
        match e {
            Error::InvalidPathname => FileStatusError::PathError(PathError::InvalidPathname),
            Error::Remote(errno) => if errno == ENOENT {
                FileStatusError::PathError(PathError::NoSuchFileOrDirectory)
            } else if errno == ENAMETOOLONG {
                FileStatusError::PathError(PathError::InvalidPathname)
            } else if errno == ENOTDIR {
                FileStatusError::PathError(PathError::ComponentNotADirectory)
            } else if errno == EPERM || errno == EACCES {
                FileStatusError::PathError(PathError::NoSearchPerms)
            } else {
                FileStatusError::Io
            },
            Error::Io | Error::InvalidResponse => FileStatusError::Io,
        }
    }
}

impl vstd::std_specs::convert::FromSpecImpl<Error> for FileStatusError {
    open spec fn obeys_from_spec() -> bool {
        true
    }

    open spec fn from_spec(e: Error) -> Self {
        file_status_error_of(e)
    }
}

/// What an error is reported as by seek operations.
pub open spec fn seek_error_of(e: Error) -> SeekError {
    match e {
        Error::InvalidPathname => SeekError::Io,
        Error::Remote(errno) => if errno == ENOENT {
            SeekError::ClosedFd
        } else if errno == EINVAL {
            SeekError::InvalidOffset
        } else if errno == ESPIPE {
            SeekError::NonSeekable
        } else {
            SeekError::Io
        },
        Error::Io | Error::InvalidResponse => SeekError::Io,
    }
}

impl From<Error> for SeekError {
    fn from(e: Error) -> (r: Self) {
        match e {
            Error::InvalidPathname => SeekError::Io,
            Error::Remote(errno) => if errno == ENOENT {
                SeekError::ClosedFd
            } else if errno == EINVAL {
                SeekError::InvalidOffset
            } else if errno == ESPIPE {
                SeekError::NonSeekable
            } else {
                SeekError::Io
            },
            Error::Io | Error::InvalidResponse => SeekError::Io,
        }
    }
}

impl vstd::std_specs::convert::FromSpecImpl<Error> for SeekError {
    open spec fn obeys_from_spec() -> bool {
        true
    }

    open spec fn from_spec(e: Error) -> Self {
        seek_error_of(e)
    }
}

/// What an error is reported as by truncate operations.
pub open spec fn truncate_error_of(e: Error) -> TruncateError {
    match e {
        Error::InvalidPathname => TruncateError::Io,
        Error::Remote(errno) => if errno == ENOENT {
            TruncateError::ClosedFd
        } else if errno == EISDIR {
            TruncateError::IsDirectory
        } else if errno == EPERM || errno == EACCES {
            TruncateError::NotForWriting
        } else {
            TruncateError::Io
        },
        Error::Io | Error::InvalidResponse => TruncateError::Io,
    }
}

impl From<Error> for TruncateError {
    fn from(e: Error) -> (r: Self) {
        match e {
            Error::InvalidPathname => TruncateError::Io,
            Error::Remote(errno) => if errno == ENOENT {
                TruncateError::ClosedFd
            } else if errno == EISDIR {
                TruncateError::IsDirectory
            } else if errno == EPERM || errno == EACCES {
                TruncateError::NotForWriting
            } else {
                TruncateError::Io
            },
            Error::Io | Error::InvalidResponse => TruncateError::Io,
        }
    }
}

impl vstd::std_specs::convert::FromSpecImpl<Error> for TruncateError {
    open spec fn obeys_from_spec() -> bool {
        true
    }

    open spec fn from_spec(e: Error) -> Self {
        truncate_error_of(e)
    }
}

/// What an error is reported as by chmod operations.
pub open spec fn chmod_error_of(e: Error) -> ChmodError {
    match e {
        Error::InvalidPathname => ChmodError::PathError(PathError::InvalidPathname),
        Error::Remote(errno) => if errno == ENOENT {
            ChmodError::PathError(PathError::NoSuchFileOrDirectory)
        } else if errno == ENOTDIR {
            ChmodError::PathError(PathError::ComponentNotADirectory)
        } else if errno == EPERM || errno == EACCES {
            ChmodError::NotTheOwner
        } else {
            ChmodError::Io
        },
        Error::Io | Error::InvalidResponse => ChmodError::Io,
    }
}

impl From<Error> for ChmodError {
    fn from(e: Error) -> (r: Self) {
        match e {
            Error::InvalidPathname => ChmodError::PathError(PathError::InvalidPathname),
            Error::Remote(errno) => if errno == ENOENT {
                ChmodError::PathError(PathError::NoSuchFileOrDirectory)
            } else if errno == ENOTDIR {
                ChmodError::PathError(PathError::ComponentNotADirectory)
            } else if errno == EPERM || errno == EACCES {
                ChmodError::NotTheOwner
            } else {
                ChmodError::Io
            },
            Error::Io | Error::InvalidResponse => ChmodError::Io,
        }
    }
}

impl vstd::std_specs::convert::FromSpecImpl<Error> for ChmodError {
    open spec fn obeys_from_spec() -> bool {
        true
    }

    open spec fn from_spec(e: Error) -> Self {
        chmod_error_of(e)
    }
}

/// What an error is reported as by chown operations.
pub open spec fn chown_error_of(e: Error) -> ChownError {
    match e {
        Error::InvalidPathname => ChownError::PathError(PathError::InvalidPathname),
        Error::Remote(errno) => if errno == ENOENT {
            ChownError::PathError(PathError::NoSuchFileOrDirectory)
        } else if errno == ENOTDIR {
            ChownError::PathError(PathError::ComponentNotADirectory)
        } else if errno == EPERM || errno == EACCES {
            ChownError::NotTheOwner
        } else {
            ChownError::Io
        },
        Error::Io | Error::InvalidResponse => ChownError::Io,
    }
}

impl From<Error> for ChownError {
    fn from(e: Error) -> (r: Self) {
        match e {
            Error::InvalidPathname => ChownError::PathError(PathError::InvalidPathname),
            Error::Remote(errno) => if errno == ENOENT {
                ChownError::PathError(PathError::NoSuchFileOrDirectory)
            } else if errno == ENOTDIR {
                ChownError::PathError(PathError::ComponentNotADirectory)
            } else if errno == EPERM || errno == EACCES {
                ChownError::NotTheOwner
            } else {
                ChownError::Io
            },
            Error::Io | Error::InvalidResponse => ChownError::Io,
        }
    }
}

impl vstd::std_specs::convert::FromSpecImpl<Error> for ChownError {
    open spec fn obeys_from_spec() -> bool {
        true
    }

    open spec fn from_spec(e: Error) -> Self {
        chown_error_of(e)
    }
}

} // verus!
