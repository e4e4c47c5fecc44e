//! Possible errors of file-system operations.
use vstd::prelude::*;

verus! {

/// Possible errors when opening a file.
#[non_exhaustive]
#[derive(Debug, Clone, Copy, PartialEq, Eq, Structural)]
pub enum OpenError {
    /// Requested access to the file is not allowed.
    AccessNotAllowed,
    /// The parent directory does not allow write permission.
    NoWritePerms,
    /// Write access requested for a file on a read-only filesystem.
    ReadOnlyFileSystem,
    /// File already exists.
    AlreadyExists,
    /// Error when truncating.
    TruncateError(TruncateError),
    /// I/O error.
    Io,
    /// The path could not be resolved.
    PathError(PathError),
}

/// Possible errors when reading from a file.
#[non_exhaustive]
#[derive(Debug, Clone, Copy, PartialEq, Eq, Structural)]
pub enum ReadError {
    /// The descriptor has been closed already.
    ClosedFd,
    /// The descriptor does not point to a file.
    NotAFile,
    /// The file is not open for reading.
    NotForReading,
    /// I/O error.
    Io,
}

/// Possible errors when writing to a file.
#[non_exhaustive]
#[derive(Debug, Clone, Copy, PartialEq, Eq, Structural)]
pub enum WriteError {
    /// The descriptor has been closed already.
    ClosedFd,
    /// The descriptor does not point to a file.
    NotAFile,
    /// The file is not open for writing.
    NotForWriting,
    /// I/O error.
    Io,
}

/// Possible errors when seeking.
#[non_exhaustive]
#[derive(Debug, Clone, Copy, PartialEq, Eq, Structural)]
pub enum SeekError {
    /// The descriptor has been closed already.
    ClosedFd,
    /// The descriptor does not point to a file.
    NotAFile,
    /// Would seek to a negative position or past the end of seekable positions.
    InvalidOffset,
    /// The file is not seekable.
    NonSeekable,
    /// I/O error.
    Io,
}

/// Possible errors when truncating a file.
#[derive(Debug, Clone, Copy, PartialEq, Eq, Structural)]
pub enum TruncateError {
    /// The descriptor has been closed already.
    ClosedFd,
    /// The descriptor points to a directory.
    IsDirectory,
    /// The file is not opened for writing.
    NotForWriting,
    /// The descriptor points to a terminal device.
    IsTerminalDevice,
    /// I/O error.
    Io,
}

/// Possible errors when changing permissions.
#[non_exhaustive]
#[derive(Debug, Clone, Copy, PartialEq, Eq, Structural)]
pub enum ChmodError {
    /// The acting user does not own the file and is not privileged.
    NotTheOwner,
    /// The file resides on a read-only filesystem.
    ReadOnlyFileSystem,
    /// I/O error.
    Io,
    /// The path could not be resolved.
    PathError(PathError),
}

/// Possible errors when changing the owner.
#[non_exhaustive]
#[derive(Debug, Clone, Copy, PartialEq, Eq, Structural)]
pub enum ChownError {
    /// The acting user does not own the file and is not privileged.
    NotTheOwner,
    /// The file resides on a read-only filesystem.
    ReadOnlyFileSystem,
    /// I/O error.
    Io,
    /// The path could not be resolved.
    PathError(PathError),
}

/// Possible errors when unlinking a file.
#[non_exhaustive]
#[derive(Debug, Clone, Copy, PartialEq, Eq, Structural)]
pub enum UnlinkError {
    /// The parent directory does not allow write permission.
    NoWritePerms,
    /// The path names a directory.
    IsADirectory,
    /// The file resides on a read-only filesystem.
    ReadOnlyFileSystem,
    /// I/O error.
    Io,
    /// The path could not be resolved.
    PathError(PathError),
}

/// Possible errors when creating a directory.
#[non_exhaustive]
#[derive(Debug, Clone, Copy, PartialEq, Eq, Structural)]
pub enum MkdirError {
    /// The parent directory does not allow write permission.
    NoWritePerms,
    /// The path already exists, not necessarily as a directory.
    AlreadyExists,
    /// The path resides on a read-only filesystem.
    ReadOnlyFileSystem,
    /// I/O error.
    Io,
    /// The path could not be resolved.
    PathError(PathError),
}

/// Possible errors when removing a directory.
#[non_exhaustive]
#[derive(Debug, Clone, Copy, PartialEq, Eq, Structural)]
pub enum RmdirError {
    /// The parent directory does not allow write permission.
    NoWritePerms,
    /// Currently in use, or something prevents its removal.
    Busy,
    /// The directory is not empty.
    NotEmpty,
    /// The path does not name a directory.
    NotADirectory,
    /// The directory resides on a read-only filesystem.
    ReadOnlyFileSystem,
    /// I/O error.
    Io,
    /// The path could not be resolved.
    PathError(PathError),
}

/// Possible errors when listing a directory.
#[non_exhaustive]
#[derive(Debug, Clone, Copy, PartialEq, Eq, Structural)]
pub enum ReadDirError {
    /// The descriptor has been closed already.
    ClosedFd,
    /// The descriptor does not point to a directory.
    NotADirectory,
    /// I/O error.
    Io,
}

/// Possible errors when asking for a file's status.
#[non_exhaustive]
#[derive(Debug, Clone, Copy, PartialEq, Eq, Structural)]
pub enum FileStatusError {
    /// The descriptor has been closed already.
    ClosedFd,
    /// I/O error.
    Io,
    /// The path could not be resolved.
    PathError(PathError),
}

/// Possible errors of a backend walk.
#[non_exhaustive]
#[derive(Debug, Clone, Copy, PartialEq, Eq, Structural)]
pub enum WalkError {
    /// I/O error.
    Io,
    /// The path could not be resolved.
    PathError(PathError),
}

/// Possible errors of any file-system operation due to its path.
#[derive(Debug, Clone, Copy, PartialEq, Eq, Structural)]
pub enum PathError {
    /// No such file or directory.
    NoSuchFileOrDirectory,
    /// One of the directories of the path did not allow search permission.
    NoSearchPerms,
    /// Invalid characters, not permitted by the underlying file system.
    InvalidPathname,
    /// A directory component of the path does not exist.
    MissingComponent,
    /// A component used as a directory is not a directory.
    ComponentNotADirectory,
}

} // verus!
