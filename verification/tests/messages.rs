use litebox::event::polling::TryOpError;
use litebox::event::wait::WaitError;
use litebox::fs::composer::BuildError;
use litebox::fs::errors::{OpenError, PathError, TruncateError};
use litebox::fs::nine_p::errors::Error;
use litebox::lvbs::errors::{HypervCallError, VerificationError, VsmError};
use litebox::messages::{decimal, Message};
use litebox::net::local_ports::LocalPortAllocationError;
use litebox::sync::futex::FutexError;

#[test]
fn numbers_are_written() {
    for n in [0, 7, 10, 99, 100, 65535, u64::MAX] {
        assert_eq!(decimal(n), format!("{}", n));
    }
}

#[test]
fn errors_have_texts() {
    assert_eq!(WaitError::TimedOut.message(), "wait timed out");
    assert_eq!(
        FutexError::NotAligned.message(),
        "address not correctly aligned to 4-bytes"
    );
    assert_eq!(FutexError::WaitError(WaitError::TimedOut).message(), "wait error");
    assert_eq!(
        BuildError::DuplicateMountPath.message(),
        "two backends were mounted at the same path"
    );
    assert_eq!(Error::InvalidResponse.message(), "Invalid response from server");
    assert_eq!(HypervCallError::InvalidPortID.message(), "invalid port ID");
    assert_eq!(
        VsmError::IntegerOverflow.message(),
        "integer overflow while processing VTL0-controlled range data"
    );
}

#[test]
fn texts_hold_what_errors_carry() {
    assert_eq!(
        LocalPortAllocationError::AlreadyInUse(8080).message(),
        "Port 8080 is already in use"
    );
    assert_eq!(Error::Remote(13).message(), "Remote error (errno=13)");
    assert_eq!(
        OpenError::TruncateError(TruncateError::IsDirectory).message(),
        "error when truncating: file descriptor points to a directory"
    );
    let path = PathError::NoSuchFileOrDirectory;
    assert_eq!(OpenError::PathError(path).message(), path.message());
    assert_eq!(TryOpError::Other(path).message(), "no such file or directory");
    assert_eq!(
        VsmError::HypercallFailed(HypervCallError::TimeOut).message(),
        "hypercall failed: TimeOut"
    );
    assert_eq!(
        VsmError::SignatureVerificationFailed(VerificationError::ParseFailed).message(),
        "signature verification failed: ParseFailed"
    );
    assert_eq!(
        VsmError::CertificateDerLengthInvalid { expected: 12, actual: 345 }.message(),
        "invalid DER certificate data (expected 12 bytes, got 345)"
    );
    assert_eq!(
        VsmError::BufferTooSmall("HekiKernelInfo").message(),
        "buffer too small for HekiKernelInfo"
    );
    assert_eq!(
        VsmError::OperationNotSupported("kexec").message(),
        "kexec is not supported"
    );
}
