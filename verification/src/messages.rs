//! The texts of errors.
use crate::event::polling::TryOpError;
use crate::event::wait::WaitError;
use crate::fs::composer::BuildError;
use crate::fs::errors::{
    ChmodError, ChownError, FileStatusError, MkdirError, OpenError, PathError, ReadDirError,
    ReadError, RmdirError, SeekError, TruncateError, UnlinkError, WalkError, WriteError,
};
use crate::fs::nine_p::errors::Error;
use crate::lvbs::errors::{HypervCallError, VerificationError, VsmError};
use crate::net::local_ports::LocalPortAllocationError;
use crate::sync::futex::FutexError;
use vstd::prelude::*;
use vstd::string::*;

verus! {

/// An error that can be told to a user.
pub trait Message {
    /// What the error says.
    spec fn text(&self) -> Seq<char>;

    /// The text of the error.
    fn message(&self) -> (r: String)
        ensures
            r@ == self.text(),
    ;
}

/// A decimal digit.
pub open spec fn digit(d: nat) -> char {
    ('0' as nat + d) as char
}

/// A number as it is written, without leading zeros.
pub open spec fn decimal_text(n: nat) -> Seq<char>
    decreases n,
{
    if n < 10 {
        seq![digit(n)]
    } else {
        decimal_text(n / 10).push(digit(n % 10))
    }
}

/// Different numbers are written differently, with the last digit last and no leading zero.
pub proof fn lemma_numbers_are_written(m: nat, n: nat)
    ensures
        decimal_text(n).len() > 0,
        decimal_text(n).last() as nat == 48 + n % 10,
        n >= 10 ==> decimal_text(n).drop_last() == decimal_text(n / 10),
        n < 10 ==> decimal_text(n).len() == 1,
        n > 0 ==> decimal_text(n)[0] != '0',
        decimal_text(m) == decimal_text(n) ==> m == n,
    decreases m + n,
{
    if n >= 10 {
        lemma_numbers_are_written(0, n / 10);
        assert(decimal_text(n).drop_last() =~= decimal_text(n / 10));
        assert(decimal_text(n)[0] == decimal_text(n / 10)[0]);
    }
    if m >= 10 {
        lemma_numbers_are_written(0, m / 10);
        assert(decimal_text(m).drop_last() =~= decimal_text(m / 10));
    }
    if decimal_text(m) == decimal_text(n) {
        assert(decimal_text(m).last() as nat == 48 + m % 10);
        if m >= 10 && n >= 10 {
            lemma_numbers_are_written(m / 10, n / 10);
        }
    }
}

fn digit_text(d: u64) -> (r: &'static str)
    requires
        d < 10,
    ensures
        r@ == seq![digit(d as nat)],
{
    proof {
        reveal_strlit("0");
        reveal_strlit("1");
        reveal_strlit("2");
        reveal_strlit("3");
        reveal_strlit("4");
        reveal_strlit("5");
        reveal_strlit("6");
        reveal_strlit("7");
        reveal_strlit("8");
        reveal_strlit("9");
    }
    match d {
        0 => "0",
        1 => "1",
        2 => "2",
        3 => "3",
        4 => "4",
        5 => "5",
        6 => "6",
        7 => "7",
        8 => "8",
        _ => "9",
    }
}

/// Writes a number.
pub fn decimal(n: u64) -> (r: String)
    ensures
        r@ == decimal_text(n as nat),
    decreases n,
{
    if n < 10 {
        digit_text(n).to_owned()
    } else {
        let r = decimal(n / 10).concat(digit_text(n % 10));
        assert(r@ =~= decimal_text(n as nat));
        r
    }
}

impl Message for WaitError {
    open spec fn text(&self) -> Seq<char> {
        match self {
            WaitError::Interrupted => "wait was interrupted"@,
            WaitError::TimedOut => "wait timed out"@,
        }
    }

    fn message(&self) -> (r: String) {
        match self {
            WaitError::Interrupted => "wait was interrupted".to_owned(),
            WaitError::TimedOut => "wait timed out".to_owned(),
        }
    }
}

impl<E: Message> Message for TryOpError<E> {
    open spec fn text(&self) -> Seq<char> {
        match self {
            TryOpError::TryAgain => "operation should be retried"@,
            TryOpError::WaitError(_) => "wait error"@,
            TryOpError::Other(e) => e.text(),
        }
    }

    fn message(&self) -> (r: String) {
        match self {
            TryOpError::TryAgain => "operation should be retried".to_owned(),
            TryOpError::WaitError(_) => "wait error".to_owned(),
            TryOpError::Other(e) => e.message(),
        }
    }
}

impl Message for LocalPortAllocationError {
    open spec fn text(&self) -> Seq<char> {
        match self {
            LocalPortAllocationError::AlreadyInUse(n) => {
                "Port "@ + decimal_text(n as nat) + " is already in use"@
            },
            LocalPortAllocationError::NoAvailableFreePorts => "No free ports are available"@,
        }
    }

    fn message(&self) -> (r: String) {
        match self {
            LocalPortAllocationError::AlreadyInUse(n) => {
                "Port ".to_owned().concat(decimal(*n as u64).as_str()).concat(" is already in use")
            },
            LocalPortAllocationError::NoAvailableFreePorts => {
                "No free ports are available".to_owned()
            },
        }
    }
}

impl Message for FutexError {
    open spec fn text(&self) -> Seq<char> {
        match self {
            FutexError::NotAligned => "address not correctly aligned to 4-bytes"@,
            FutexError::ImmediatelyWokenBecauseValueMismatch => {
                "immediately woken: value did not match expected"@
            },
            FutexError::WaitError(_) => "wait error"@,
            FutexError::Fault => "fault reading futex word"@,
        }
    }

    fn message(&self) -> (r: String) {
        match self {
            FutexError::NotAligned => "address not correctly aligned to 4-bytes".to_owned(),
            FutexError::ImmediatelyWokenBecauseValueMismatch => {
                "immediately woken: value did not match expected".to_owned()
            },
            FutexError::WaitError(_) => "wait error".to_owned(),
            FutexError::Fault => "fault reading futex word".to_owned(),
        }
    }
}

impl Message for OpenError {
    open spec fn text(&self) -> Seq<char> {
        match self {
            OpenError::AccessNotAllowed => "requested access to the file is not allowed"@,
            OpenError::NoWritePerms => "the parent directory does not allow write permission"@,
            OpenError::ReadOnlyFileSystem => {
                "write access requested for a file on a read-only filesystem"@
            },
            OpenError::AlreadyExists => "file already exists"@,
            OpenError::TruncateError(e) => "error when truncating: "@ + e.text(),
            OpenError::Io => "I/O error"@,
            OpenError::PathError(e) => e.text(),
        }
    }

    fn message(&self) -> (r: String) {
        match self {
            OpenError::AccessNotAllowed => "requested access to the file is not allowed".to_owned(),
            OpenError::NoWritePerms => {
                "the parent directory does not allow write permission".to_owned()
            },
            OpenError::ReadOnlyFileSystem => {
                "write access requested for a file on a read-only filesystem".to_owned()
            },
            OpenError::AlreadyExists => "file already exists".to_owned(),
            OpenError::TruncateError(e) => {
                "error when truncating: ".to_owned().concat(e.message().as_str())
            },
            OpenError::Io => "I/O error".to_owned(),
            OpenError::PathError(e) => e.message(),
        }
    }
}

impl Message for ReadError {
    open spec fn text(&self) -> Seq<char> {
        match self {
            ReadError::ClosedFd => "fd has been closed already"@,
            ReadError::NotAFile => "file descriptor does not point to a file"@,
            ReadError::NotForReading => "file not open for reading"@,
            ReadError::Io => "I/O error"@,
        }
    }

    fn message(&self) -> (r: String) {
        match self {
            ReadError::ClosedFd => "fd has been closed already".to_owned(),
            ReadError::NotAFile => "file descriptor does not point to a file".to_owned(),
            ReadError::NotForReading => "file not open for reading".to_owned(),
            ReadError::Io => "I/O error".to_owned(),
        }
    }
}

impl Message for WriteError {
    open spec fn text(&self) -> Seq<char> {
        match self {
            WriteError::ClosedFd => "fd has been closed already"@,
            WriteError::NotAFile => "file descriptor does not point to a file"@,
            WriteError::NotForWriting => "file not open for writing"@,
            WriteError::Io => "I/O error"@,
        }
    }

    fn message(&self) -> (r: String) {
        match self {
            WriteError::ClosedFd => "fd has been closed already".to_owned(),
            WriteError::NotAFile => "file descriptor does not point to a file".to_owned(),
            WriteError::NotForWriting => "file not open for writing".to_owned(),
            WriteError::Io => "I/O error".to_owned(),
        }
    }
}

impl Message for SeekError {
    open spec fn text(&self) -> Seq<char> {
        match self {
            SeekError::ClosedFd => "fd has been closed already"@,
            SeekError::NotAFile => "file descriptor does not point to a file"@,
            SeekError::InvalidOffset => {
                "would seek to an invalid (negative or past end) of seekable positions"@
            },
            SeekError::NonSeekable => "non-seekable file"@,
            SeekError::Io => "I/O error"@,
        }
    }

    fn message(&self) -> (r: String) {
        match self {
            SeekError::ClosedFd => "fd has been closed already".to_owned(),
            SeekError::NotAFile => "file descriptor does not point to a file".to_owned(),
            SeekError::InvalidOffset => {
                "would seek to an invalid (negative or past end) of seekable positions".to_owned()
            },
            SeekError::NonSeekable => "non-seekable file".to_owned(),
            SeekError::Io => "I/O error".to_owned(),
        }
    }
}

impl Message for TruncateError {
    open spec fn text(&self) -> Seq<char> {
        match self {
            TruncateError::ClosedFd => "fd has been closed already"@,
            TruncateError::IsDirectory => "file descriptor points to a directory"@,
            TruncateError::NotForWriting => "file is not opened for writing"@,
            TruncateError::IsTerminalDevice => "file descriptor points to a terminal device"@,
            TruncateError::Io => "I/O error"@,
        }
    }

    fn message(&self) -> (r: String) {
        match self {
            TruncateError::ClosedFd => "fd has been closed already".to_owned(),
            TruncateError::IsDirectory => "file descriptor points to a directory".to_owned(),
            TruncateError::NotForWriting => "file is not opened for writing".to_owned(),
            TruncateError::IsTerminalDevice => {
                "file descriptor points to a terminal device".to_owned()
            },
            TruncateError::Io => "I/O error".to_owned(),
        }
    }
}

impl Message for ChmodError {
    open spec fn text(&self) -> Seq<char> {
        match self {
            ChmodError::NotTheOwner => {
                "the effective UID does not match the owner of the file, and the process is not privileged"@
            },
            ChmodError::ReadOnlyFileSystem => "the named file resides on a read-only filesystem"@,
            ChmodError::Io => "I/O error"@,
            ChmodError::PathError(e) => e.text(),
        }
    }

    fn message(&self) -> (r: String) {
        match self {
            ChmodError::NotTheOwner => {
                "the effective UID does not match the owner of the file, and the process is not privileged".to_owned()
            },
            ChmodError::ReadOnlyFileSystem => {
                "the named file resides on a read-only filesystem".to_owned()
            },
            ChmodError::Io => "I/O error".to_owned(),
            ChmodError::PathError(e) => e.message(),
        }
    }
}

impl Message for ChownError {
    open spec fn text(&self) -> Seq<char> {
        match self {
            ChownError::NotTheOwner => {
                "the effective UID does not match the owner of the file, and the process is not privileged"@
            },
            ChownError::ReadOnlyFileSystem => "the named file resides on a read-only filesystem"@,
            ChownError::Io => "I/O error"@,
            ChownError::PathError(e) => e.text(),
        }
    }

    fn message(&self) -> (r: String) {
        match self {
            ChownError::NotTheOwner => {
                "the effective UID does not match the owner of the file, and the process is not privileged".to_owned()
            },
            ChownError::ReadOnlyFileSystem => {
                "the named file resides on a read-only filesystem".to_owned()
            },
            ChownError::Io => "I/O error".to_owned(),
            ChownError::PathError(e) => e.message(),
        }
    }
}

impl Message for UnlinkError {
    open spec fn text(&self) -> Seq<char> {
        match self {
            UnlinkError::NoWritePerms => "the parent directory does not allow write permission"@,
            UnlinkError::IsADirectory => "pathname is a directory"@,
            UnlinkError::ReadOnlyFileSystem => "the named file resides on a read-only filesystem"@,
            UnlinkError::Io => "I/O error"@,
            UnlinkError::PathError(e) => e.text(),
        }
    }

    fn message(&self) -> (r: String) {
        match self {
            UnlinkError::NoWritePerms => {
                "the parent directory does not allow write permission".to_owned()
            },
            UnlinkError::IsADirectory => "pathname is a directory".to_owned(),
            UnlinkError::ReadOnlyFileSystem => {
                "the named file resides on a read-only filesystem".to_owned()
            },
            UnlinkError::Io => "I/O error".to_owned(),
            UnlinkError::PathError(e) => e.message(),
        }
    }
}

impl Message for MkdirError {
    open spec fn text(&self) -> Seq<char> {
        match self {
            MkdirError::NoWritePerms => "the parent directory does not allow write permission"@,
            MkdirError::AlreadyExists => "pathname already exists, not necessarily a directory"@,
            MkdirError::ReadOnlyFileSystem => "the named file resides on a read-only filesystem"@,
            MkdirError::Io => "I/O error"@,
            MkdirError::PathError(e) => e.text(),
        }
    }

    fn message(&self) -> (r: String) {
        match self {
            MkdirError::NoWritePerms => {
                "the parent directory does not allow write permission".to_owned()
            },
            MkdirError::AlreadyExists => {
                "pathname already exists, not necessarily a directory".to_owned()
            },
            MkdirError::ReadOnlyFileSystem => {
                "the named file resides on a read-only filesystem".to_owned()
            },
            MkdirError::Io => "I/O error".to_owned(),
            MkdirError::PathError(e) => e.message(),
        }
    }
}

impl Message for RmdirError {
    open spec fn text(&self) -> Seq<char> {
        match self {
            RmdirError::NoWritePerms => "the parent directory does not allow write permission"@,
            RmdirError::Busy => {
                "currently in use by the system, or something prevents its removal (e.g., is the root directory)"@
            },
            RmdirError::NotEmpty => "pathname contains entries other than . and .."@,
            RmdirError::NotADirectory => "pathname is not a directory"@,
            RmdirError::ReadOnlyFileSystem => "the named file resides on a read-only filesystem"@,
            RmdirError::Io => "I/O error"@,
            RmdirError::PathError(e) => e.text(),
        }
    }

    fn message(&self) -> (r: String) {
        match self {
            RmdirError::NoWritePerms => {
                "the parent directory does not allow write permission".to_owned()
            },
            RmdirError::Busy => {
                "currently in use by the system, or something prevents its removal (e.g., is the root directory)".to_owned()
            },
            RmdirError::NotEmpty => "pathname contains entries other than . and ..".to_owned(),
            RmdirError::NotADirectory => "pathname is not a directory".to_owned(),
            RmdirError::ReadOnlyFileSystem => {
                "the named file resides on a read-only filesystem".to_owned()
            },
            RmdirError::Io => "I/O error".to_owned(),
            RmdirError::PathError(e) => e.message(),
        }
    }
}

impl Message for ReadDirError {
    open spec fn text(&self) -> Seq<char> {
        match self {
            ReadDirError::ClosedFd => "fd has been closed already"@,
            ReadDirError::NotADirectory => "fd does not point to a directory"@,
            ReadDirError::Io => "I/O error"@,
        }
    }

    fn message(&self) -> (r: String) {
        match self {
            ReadDirError::ClosedFd => "fd has been closed already".to_owned(),
            ReadDirError::NotADirectory => "fd does not point to a directory".to_owned(),
            ReadDirError::Io => "I/O error".to_owned(),
        }
    }
}

impl Message for FileStatusError {
    open spec fn text(&self) -> Seq<char> {
        match self {
            FileStatusError::ClosedFd => "fd has been closed already"@,
            FileStatusError::Io => "I/O error"@,
            FileStatusError::PathError(e) => e.text(),
        }
    }

    fn message(&self) -> (r: String) {
        match self {
            FileStatusError::ClosedFd => "fd has been closed already".to_owned(),
            FileStatusError::Io => "I/O error".to_owned(),
            FileStatusError::PathError(e) => e.message(),
        }
    }
}

impl Message for WalkError {
    open spec fn text(&self) -> Seq<char> {
        match self {
            WalkError::Io => "I/O error"@,
            WalkError::PathError(e) => e.text(),
        }
    }

    fn message(&self) -> (r: String) {
        match self {
            WalkError::Io => "I/O error".to_owned(),
            WalkError::PathError(e) => e.message(),
        }
    }
}

impl Message for PathError {
    open spec fn text(&self) -> Seq<char> {
        match self {
            PathError::NoSuchFileOrDirectory => "no such file or directory"@,
            PathError::NoSearchPerms => {
                "one of the directories in pathname did not allow search permission"@
            },
            PathError::InvalidPathname => {
                "invalid characters, not permitted by underlying file system"@
            },
            PathError::MissingComponent => {
                "a directory component in pathname does not exist or is a dangling symbolic link"@
            },
            PathError::ComponentNotADirectory => {
                "a component used as a directory in pathname is not, in fact, a directory"@
            },
        }
    }

    fn message(&self) -> (r: String) {
        match self {
            PathError::NoSuchFileOrDirectory => "no such file or directory".to_owned(),
            PathError::NoSearchPerms => {
                "one of the directories in pathname did not allow search permission".to_owned()
            },
            PathError::InvalidPathname => {
                "invalid characters, not permitted by underlying file system".to_owned()
            },
            PathError::MissingComponent => {
                "a directory component in pathname does not exist or is a dangling symbolic link".to_owned()
            },
            PathError::ComponentNotADirectory => {
                "a component used as a directory in pathname is not, in fact, a directory".to_owned()
            },
        }
    }
}

impl Message for BuildError {
    open spec fn text(&self) -> Seq<char> {
        match self {
            BuildError::NoMounts => "composer must have at least one mount"@,
            BuildError::InvalidMountPath => "mount paths must be absolute normalized paths"@,
            BuildError::DuplicateMountPath => "two backends were mounted at the same path"@,
        }
    }

    fn message(&self) -> (r: String) {
        match self {
            BuildError::NoMounts => "composer must have at least one mount".to_owned(),
            BuildError::InvalidMountPath => {
                "mount paths must be absolute normalized paths".to_owned()
            },
            BuildError::DuplicateMountPath => {
                "two backends were mounted at the same path".to_owned()
            },
        }
    }
}

impl Message for Error {
    open spec fn text(&self) -> Seq<char> {
        match self {
            Error::Io => "I/O error"@,
            Error::InvalidResponse => "Invalid response from server"@,
            Error::InvalidPathname => "Invalid pathname"@,
            Error::Remote(n) => "Remote error (errno="@ + decimal_text(n as nat) + ")"@,
        }
    }

    fn message(&self) -> (r: String) {
        match self {
            Error::Io => "I/O error".to_owned(),
            Error::InvalidResponse => "Invalid response from server".to_owned(),
            Error::InvalidPathname => "Invalid pathname".to_owned(),
            Error::Remote(n) => {
                "Remote error (errno=".to_owned().concat(decimal(*n as u64).as_str()).concat(")")
            },
        }
    }
}

impl HypervCallError {
    /// The name of the error.
    pub open spec fn name_spec(self) -> Seq<char> {
        match self {
            HypervCallError::InvalidCode => "InvalidCode"@,
            HypervCallError::InvalidInput => "InvalidInput"@,
            HypervCallError::InvalidAlignment => "InvalidAlignment"@,
            HypervCallError::InvalidParameter => "InvalidParameter"@,
            HypervCallError::AccessDenied => "AccessDenied"@,
            HypervCallError::OperationDenied => "OperationDenied"@,
            HypervCallError::InsufficientMemory => "InsufficientMemory"@,
            HypervCallError::InvalidPortID => "InvalidPortID"@,
            HypervCallError::InvalidConnectionID => "InvalidConnectionID"@,
            HypervCallError::InsufficientBuffers => "InsufficientBuffers"@,
            HypervCallError::TimeOut => "TimeOut"@,
            HypervCallError::AlreadyEnabled => "AlreadyEnabled"@,
            HypervCallError::Unknown => "Unknown"@,
        }
    }

    /// The name of the error.
    pub fn name(&self) -> (r: &'static str)
        ensures
            r@ == self.name_spec(),
    {
        match self {
            HypervCallError::InvalidCode => "InvalidCode",
            HypervCallError::InvalidInput => "InvalidInput",
            HypervCallError::InvalidAlignment => "InvalidAlignment",
            HypervCallError::InvalidParameter => "InvalidParameter",
            HypervCallError::AccessDenied => "AccessDenied",
            HypervCallError::OperationDenied => "OperationDenied",
            HypervCallError::InsufficientMemory => "InsufficientMemory",
            HypervCallError::InvalidPortID => "InvalidPortID",
            HypervCallError::InvalidConnectionID => "InvalidConnectionID",
            HypervCallError::InsufficientBuffers => "InsufficientBuffers",
            HypervCallError::TimeOut => "TimeOut",
            HypervCallError::AlreadyEnabled => "AlreadyEnabled",
            HypervCallError::Unknown => "Unknown",
        }
    }
}

impl Message for HypervCallError {
    open spec fn text(&self) -> Seq<char> {
        match self {
            HypervCallError::InvalidCode => "invalid hypercall code"@,
            HypervCallError::InvalidInput => "invalid hypercall input"@,
            HypervCallError::InvalidAlignment => "invalid alignment"@,
            HypervCallError::InvalidParameter => "invalid parameter"@,
            HypervCallError::AccessDenied => "access denied"@,
            HypervCallError::OperationDenied => "operation denied"@,
            HypervCallError::InsufficientMemory => "insufficient memory"@,
            HypervCallError::InvalidPortID => "invalid port ID"@,
            HypervCallError::InvalidConnectionID => "invalid connection ID"@,
            HypervCallError::InsufficientBuffers => "insufficient buffers"@,
            HypervCallError::TimeOut => "timeout"@,
            HypervCallError::AlreadyEnabled => "VTL already enabled"@,
            HypervCallError::Unknown => "unknown hypercall error"@,
        }
    }

    fn message(&self) -> (r: String) {
        match self {
            HypervCallError::InvalidCode => "invalid hypercall code".to_owned(),
            HypervCallError::InvalidInput => "invalid hypercall input".to_owned(),
            HypervCallError::InvalidAlignment => "invalid alignment".to_owned(),
            HypervCallError::InvalidParameter => "invalid parameter".to_owned(),
            HypervCallError::AccessDenied => "access denied".to_owned(),
            HypervCallError::OperationDenied => "operation denied".to_owned(),
            HypervCallError::InsufficientMemory => "insufficient memory".to_owned(),
            HypervCallError::InvalidPortID => "invalid port ID".to_owned(),
            HypervCallError::InvalidConnectionID => "invalid connection ID".to_owned(),
            HypervCallError::InsufficientBuffers => "insufficient buffers".to_owned(),
            HypervCallError::TimeOut => "timeout".to_owned(),
            HypervCallError::AlreadyEnabled => "VTL already enabled".to_owned(),
            HypervCallError::Unknown => "unknown hypercall error".to_owned(),
        }
    }
}

impl VerificationError {
    /// The name of the error.
    pub open spec fn name_spec(self) -> Seq<char> {
        match self {
            VerificationError::SignatureNotFound => "SignatureNotFound"@,
            VerificationError::InvalidSignature => "InvalidSignature"@,
            VerificationError::InvalidCertificate => "InvalidCertificate"@,
            VerificationError::AuthenticationFailed => "AuthenticationFailed"@,
            VerificationError::ParseFailed => "ParseFailed"@,
            VerificationError::Unsupported => "Unsupported"@,
        }
    }

    /// The name of the error.
    pub fn name(&self) -> (r: &'static str)
        ensures
            r@ == self.name_spec(),
    {
        match self {
            VerificationError::SignatureNotFound => "SignatureNotFound",
            VerificationError::InvalidSignature => "InvalidSignature",
            VerificationError::InvalidCertificate => "InvalidCertificate",
            VerificationError::AuthenticationFailed => "AuthenticationFailed",
            VerificationError::ParseFailed => "ParseFailed",
            VerificationError::Unsupported => "Unsupported",
        }
    }
}

impl Message for VerificationError {
    open spec fn text(&self) -> Seq<char> {
        match self {
            VerificationError::SignatureNotFound => "signature not found in module"@,
            VerificationError::InvalidSignature => "invalid signature format"@,
            VerificationError::InvalidCertificate => "invalid certificate"@,
            VerificationError::AuthenticationFailed => "signature authentication failed"@,
            VerificationError::ParseFailed => "failed to parse signature data"@,
            VerificationError::Unsupported => "unsupported signature algorithm"@,
        }
    }

    fn message(&self) -> (r: String) {
        match self {
            VerificationError::SignatureNotFound => "signature not found in module".to_owned(),
            VerificationError::InvalidSignature => "invalid signature format".to_owned(),
            VerificationError::InvalidCertificate => "invalid certificate".to_owned(),
            VerificationError::AuthenticationFailed => "signature authentication failed".to_owned(),
            VerificationError::ParseFailed => "failed to parse signature data".to_owned(),
            VerificationError::Unsupported => "unsupported signature algorithm".to_owned(),
        }
    }
}

impl Message for VsmError {
    open spec fn text(&self) -> Seq<char> {
        match self {
            VsmError::ApInitFailed(e) => "failed to initialize AP: "@ + e.name_spec(),
            VsmError::CpuOnlineMaskCopyFailed => "failed to copy cpu_online_mask from VTL0"@,
            VsmError::CodePageOffsetOverflow => {
                "code page offset overflow when computing VTL return address"@
            },
            VsmError::IntegerOverflow => {
                "integer overflow while processing VTL0-controlled range data"@
            },
            VsmError::OperationAfterEndOfBoot(s) => s@ + " not allowed after end of boot"@,
            VsmError::InvalidInputAddress => "invalid input address"@,
            VsmError::AddressNotPageAligned => "address must be page-aligned"@,
            VsmError::InvalidPhysicalAddress => "invalid physical address"@,
            VsmError::MemoryAttributeInvalid => "invalid memory attributes"@,
            VsmError::HekiPagesCopyFailed => "failed to copy HEKI pages from VTL0"@,
            VsmError::KernelDataTypeInvalid => "invalid kernel data type"@,
            VsmError::ModuleMemoryTypeInvalid => "invalid module memory type"@,
            VsmError::SystemCertificatesNotLoaded => "system certificates not loaded"@,
            VsmError::SystemCertificatesNotFound => "no system certificate found in kernel data"@,
            VsmError::SystemCertificatesInvalid => "no valid system certificates parsed"@,
            VsmError::CertificateDerLengthInvalid { expected, actual } => {
                "invalid DER certificate data (expected "@
                    + decimal_text(expected as nat)
                    + " bytes, got "@
                    + decimal_text(actual as nat)
                    + ")"@
            },
            VsmError::CertificateParseFailed => "failed to parse certificate"@,
            VsmError::ModuleElfSizeExceeded { size, max } => {
                "module ELF size ("@
                    + decimal_text(size as nat)
                    + " bytes) exceeds maximum allowed ("@
                    + decimal_text(max as nat)
                    + " bytes)"@
            },
            VsmError::ModuleRelocationInvalid => "found unexpected relocations in loaded module"@,
            VsmError::ModuleTokenInvalid => "invalid module token"@,
            VsmError::ProtectedFrameOverlap => {
                "physical frames overlap already-protected or reserved memory"@
            },
            VsmError::KernelSymbolTableNotFound => "no kernel symbol table found"@,
            VsmError::KexecTypeInvalid => "invalid kexec type"@,
            VsmError::KexecImageSegmentsInvalid => "invalid kexec image segments"@,
            VsmError::KexecSegmentRangeInvalid => "invalid kexec segment memory range"@,
            VsmError::PrecomputedPatchNotFound => "precomputed patch data not found"@,
            VsmError::TextPatchSuspicious => "text patch validation failed"@,
            VsmError::OperationNotSupported(s) => s@ + " is not supported"@,
            VsmError::Vtl0CopyFailed => "failed to copy data from/to VTL0"@,
            VsmError::HypercallFailed(e) => "hypercall failed: "@ + e.name_spec(),
            VsmError::SignatureVerificationFailed(e) => {
                "signature verification failed: "@ + e.name_spec()
            },
            VsmError::BufferTooSmall(s) => "buffer too small for "@ + s@,
            VsmError::InvalidVirtualAddress => "invalid virtual address"@,
            VsmError::SymbolTableEmpty => "symbol table data empty"@,
            VsmError::SymbolTableOutOfRange => "symbol table data out of range"@,
            VsmError::SymbolTableLengthInvalid => "symbol table length not aligned to symbol size"@,
            VsmError::SymbolNameOffsetInvalid => "symbol name offset out of bounds"@,
            VsmError::SymbolNameNoTerminator => "symbol name missing NUL terminator"@,
            VsmError::SymbolNameTooLong => "symbol name exceeds maximum length"@,
            VsmError::SymbolNameInvalidUtf8 => "symbol name contains invalid UTF-8"@,
        }
    }

    fn message(&self) -> (r: String) {
        match self {
            VsmError::ApInitFailed(e) => "failed to initialize AP: ".to_owned().concat(e.name()),
            VsmError::CpuOnlineMaskCopyFailed => {
                "failed to copy cpu_online_mask from VTL0".to_owned()
            },
            VsmError::CodePageOffsetOverflow => {
                "code page offset overflow when computing VTL return address".to_owned()
            },
            VsmError::IntegerOverflow => {
                "integer overflow while processing VTL0-controlled range data".to_owned()
            },
            VsmError::OperationAfterEndOfBoot(s) => {
                (*s).to_owned().concat(" not allowed after end of boot")
            },
            VsmError::InvalidInputAddress => "invalid input address".to_owned(),
            VsmError::AddressNotPageAligned => "address must be page-aligned".to_owned(),
            VsmError::InvalidPhysicalAddress => "invalid physical address".to_owned(),
            VsmError::MemoryAttributeInvalid => "invalid memory attributes".to_owned(),
            VsmError::HekiPagesCopyFailed => "failed to copy HEKI pages from VTL0".to_owned(),
            VsmError::KernelDataTypeInvalid => "invalid kernel data type".to_owned(),
            VsmError::ModuleMemoryTypeInvalid => "invalid module memory type".to_owned(),
            VsmError::SystemCertificatesNotLoaded => "system certificates not loaded".to_owned(),
            VsmError::SystemCertificatesNotFound => {
                "no system certificate found in kernel data".to_owned()
            },
            VsmError::SystemCertificatesInvalid => "no valid system certificates parsed".to_owned(),
            VsmError::CertificateDerLengthInvalid { expected, actual } => {
                "invalid DER certificate data (expected ".to_owned().concat(decimal(*expected as u64).as_str())
                    .concat(" bytes, got ")
                    .concat(decimal(*actual as u64).as_str())
                    .concat(")")
            },
            VsmError::CertificateParseFailed => "failed to parse certificate".to_owned(),
            VsmError::ModuleElfSizeExceeded { size, max } => {
                "module ELF size (".to_owned().concat(decimal(*size as u64).as_str())
                    .concat(" bytes) exceeds maximum allowed (")
                    .concat(decimal(*max as u64).as_str())
                    .concat(" bytes)")
            },
            VsmError::ModuleRelocationInvalid => {
                "found unexpected relocations in loaded module".to_owned()
            },
            VsmError::ModuleTokenInvalid => "invalid module token".to_owned(),
            VsmError::ProtectedFrameOverlap => {
                "physical frames overlap already-protected or reserved memory".to_owned()
            },
            VsmError::KernelSymbolTableNotFound => "no kernel symbol table found".to_owned(),
            VsmError::KexecTypeInvalid => "invalid kexec type".to_owned(),
            VsmError::KexecImageSegmentsInvalid => "invalid kexec image segments".to_owned(),
            VsmError::KexecSegmentRangeInvalid => "invalid kexec segment memory range".to_owned(),
            VsmError::PrecomputedPatchNotFound => "precomputed patch data not found".to_owned(),
            VsmError::TextPatchSuspicious => "text patch validation failed".to_owned(),
            VsmError::OperationNotSupported(s) => (*s).to_owned().concat(" is not supported"),
            VsmError::Vtl0CopyFailed => "failed to copy data from/to VTL0".to_owned(),
            VsmError::HypercallFailed(e) => "hypercall failed: ".to_owned().concat(e.name()),
            VsmError::SignatureVerificationFailed(e) => {
                "signature verification failed: ".to_owned().concat(e.name())
            },
            VsmError::BufferTooSmall(s) => "buffer too small for ".to_owned().concat(s),
            VsmError::InvalidVirtualAddress => "invalid virtual address".to_owned(),
            VsmError::SymbolTableEmpty => "symbol table data empty".to_owned(),
            VsmError::SymbolTableOutOfRange => "symbol table data out of range".to_owned(),
            VsmError::SymbolTableLengthInvalid => {
                "symbol table length not aligned to symbol size".to_owned()
            },
            VsmError::SymbolNameOffsetInvalid => "symbol name offset out of bounds".to_owned(),
            VsmError::SymbolNameNoTerminator => "symbol name missing NUL terminator".to_owned(),
            VsmError::SymbolNameTooLong => "symbol name exceeds maximum length".to_owned(),
            VsmError::SymbolNameInvalidUtf8 => "symbol name contains invalid UTF-8".to_owned(),
        }
    }
}

} // verus!
