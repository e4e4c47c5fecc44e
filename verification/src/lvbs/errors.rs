//! Errors of VSM operations.
use crate::linux::errno::Errno;
use vstd::prelude::*;

verus! {

pub const HV_STATUS_INVALID_HYPERCALL_CODE: u32 = 2;

pub const HV_STATUS_INVALID_HYPERCALL_INPUT: u32 = 3;

pub const HV_STATUS_INVALID_ALIGNMENT: u32 = 4;

pub const HV_STATUS_INVALID_PARAMETER: u32 = 5;

pub const HV_STATUS_ACCESS_DENIED: u32 = 6;

pub const HV_STATUS_OPERATION_DENIED: u32 = 8;

pub const HV_STATUS_INSUFFICIENT_MEMORY: u32 = 11;

pub const HV_STATUS_INVALID_PORT_ID: u32 = 17;

pub const HV_STATUS_INVALID_CONNECTION_ID: u32 = 18;

pub const HV_STATUS_INSUFFICIENT_BUFFERS: u32 = 19;

pub const HV_STATUS_TIME_OUT: u32 = 120;

pub const HV_STATUS_VTL_ALREADY_ENABLED: u32 = 134;

/// The status of hypercall errors that are not known.
pub const HV_STATUS_UNKNOWN: u32 = 0xffff_ffff;

/// Errors for Hyper-V hypercalls.
#[non_exhaustive]
#[derive(Clone, Copy, Debug, PartialEq, Eq, Structural)]
pub enum HypervCallError {
    InvalidCode,
    InvalidInput,
    InvalidAlignment,
    InvalidParameter,
    AccessDenied,
    OperationDenied,
    InsufficientMemory,
    InvalidPortID,
    InvalidConnectionID,
    InsufficientBuffers,
    TimeOut,
    AlreadyEnabled,
    Unknown,
}

impl HypervCallError {
    /// The status of the error.
    pub open spec fn status_spec(self) -> u32 {
        match self {
            HypervCallError::InvalidCode => HV_STATUS_INVALID_HYPERCALL_CODE,
            HypervCallError::InvalidInput => HV_STATUS_INVALID_HYPERCALL_INPUT,
            HypervCallError::InvalidAlignment => HV_STATUS_INVALID_ALIGNMENT,
            HypervCallError::InvalidParameter => HV_STATUS_INVALID_PARAMETER,
            HypervCallError::AccessDenied => HV_STATUS_ACCESS_DENIED,
            HypervCallError::OperationDenied => HV_STATUS_OPERATION_DENIED,
            HypervCallError::InsufficientMemory => HV_STATUS_INSUFFICIENT_MEMORY,
            HypervCallError::InvalidPortID => HV_STATUS_INVALID_PORT_ID,
            HypervCallError::InvalidConnectionID => HV_STATUS_INVALID_CONNECTION_ID,
            HypervCallError::InsufficientBuffers => HV_STATUS_INSUFFICIENT_BUFFERS,
            HypervCallError::TimeOut => HV_STATUS_TIME_OUT,
            HypervCallError::AlreadyEnabled => HV_STATUS_VTL_ALREADY_ENABLED,
            HypervCallError::Unknown => HV_STATUS_UNKNOWN,
        }
    }

    /// The status of the error.
    pub fn status(self) -> (r: u32)
        ensures
            r == self.status_spec(),
    {
        match self {
            HypervCallError::InvalidCode => HV_STATUS_INVALID_HYPERCALL_CODE,
            HypervCallError::InvalidInput => HV_STATUS_INVALID_HYPERCALL_INPUT,
            HypervCallError::InvalidAlignment => HV_STATUS_INVALID_ALIGNMENT,
            HypervCallError::InvalidParameter => HV_STATUS_INVALID_PARAMETER,
            HypervCallError::AccessDenied => HV_STATUS_ACCESS_DENIED,
            HypervCallError::OperationDenied => HV_STATUS_OPERATION_DENIED,
            HypervCallError::InsufficientMemory => HV_STATUS_INSUFFICIENT_MEMORY,
            HypervCallError::InvalidPortID => HV_STATUS_INVALID_PORT_ID,
            HypervCallError::InvalidConnectionID => HV_STATUS_INVALID_CONNECTION_ID,
            HypervCallError::InsufficientBuffers => HV_STATUS_INSUFFICIENT_BUFFERS,
            HypervCallError::TimeOut => HV_STATUS_TIME_OUT,
            HypervCallError::AlreadyEnabled => HV_STATUS_VTL_ALREADY_ENABLED,
            HypervCallError::Unknown => HV_STATUS_UNKNOWN,
        }
    }

    /// The error with a status, if there is one.
    pub fn from_status(status: u32) -> (r: Option<HypervCallError>)
        ensures
            r is Some ==> r->Some_0.status_spec() == status,
            r is None ==> forall|e: HypervCallError| #[trigger] e.status_spec() != status,
    {
        if status == HV_STATUS_INVALID_HYPERCALL_CODE {
            Some(HypervCallError::InvalidCode)
        } else if status == HV_STATUS_INVALID_HYPERCALL_INPUT {
            Some(HypervCallError::InvalidInput)
        } else if status == HV_STATUS_INVALID_ALIGNMENT {
            Some(HypervCallError::InvalidAlignment)
        } else if status == HV_STATUS_INVALID_PARAMETER {
            Some(HypervCallError::InvalidParameter)
        } else if status == HV_STATUS_ACCESS_DENIED {
            Some(HypervCallError::AccessDenied)
        } else if status == HV_STATUS_OPERATION_DENIED {
            Some(HypervCallError::OperationDenied)
        } else if status == HV_STATUS_INSUFFICIENT_MEMORY {
            Some(HypervCallError::InsufficientMemory)
        } else if status == HV_STATUS_INVALID_PORT_ID {
            Some(HypervCallError::InvalidPortID)
        } else if status == HV_STATUS_INVALID_CONNECTION_ID {
            Some(HypervCallError::InvalidConnectionID)
        } else if status == HV_STATUS_INSUFFICIENT_BUFFERS {
            Some(HypervCallError::InsufficientBuffers)
        } else if status == HV_STATUS_TIME_OUT {
            Some(HypervCallError::TimeOut)
        } else if status == HV_STATUS_VTL_ALREADY_ENABLED {
            Some(HypervCallError::AlreadyEnabled)
        } else if status == HV_STATUS_UNKNOWN {
            Some(HypervCallError::Unknown)
        } else {
            None
        }
    }
}

/// Errors for module signature verification.
#[non_exhaustive]
#[derive(Clone, Copy, Debug, PartialEq, Eq, Structural)]
pub enum VerificationError {
    /// Signature not found in module.
    SignatureNotFound,
    /// Invalid signature format.
    InvalidSignature,
    /// Invalid certificate.
    InvalidCertificate,
    /// Signature authentication failed.
    AuthenticationFailed,
    /// Failed to parse signature data.
    ParseFailed,
    /// Unsupported signature algorithm.
    Unsupported,
}

/// The error number of a verification error.
pub open spec fn verification_errno(e: VerificationError) -> i32 {
    match e {
        VerificationError::AuthenticationFailed => Errno::EKEYREJECTED,
        VerificationError::SignatureNotFound => Errno::ENODATA,
        VerificationError::Unsupported => Errno::ENOPKG,
        VerificationError::InvalidCertificate => Errno::ENOKEY,
        VerificationError::InvalidSignature => Errno::ELIBBAD,
        VerificationError::ParseFailed => Errno::ELIBBAD,
    }
}

impl From<VerificationError> for Errno {
    fn from(e: VerificationError) -> (r: Self) {
        let number: i32 = match e {
            VerificationError::AuthenticationFailed => Errno::EKEYREJECTED,
            VerificationError::SignatureNotFound => Errno::ENODATA,
            VerificationError::Unsupported => Errno::ENOPKG,
            VerificationError::InvalidCertificate => Errno::ENOKEY,
            VerificationError::InvalidSignature => Errno::ELIBBAD,
            VerificationError::ParseFailed => Errno::ELIBBAD,
        };
        Errno { number }
    }
}

impl vstd::std_specs::convert::FromSpecImpl<VerificationError> for Errno {
    open spec fn obeys_from_spec() -> bool {
        true
    }

    open spec fn from_spec(e: VerificationError) -> Self {
        Errno { number: verification_errno(e) }
    }
}

/// Errors for Virtual Secure Mode (VSM) operations.
#[non_exhaustive]
#[derive(Clone, Copy, Debug)]
pub enum VsmError {
    /// Failed to initialize AP.
    ApInitFailed(HypervCallError),
    /// Failed to copy cpu_online_mask from VTL0.
    CpuOnlineMaskCopyFailed,
    /// Code page offset overflow when computing VTL return address.
    CodePageOffsetOverflow,
    /// Integer overflow while processing VTL0-controlled range data.
    IntegerOverflow,
    /// Something is not allowed after end of boot.
    OperationAfterEndOfBoot(&'static str),
    InvalidInputAddress,
    /// The address must be page-aligned.
    AddressNotPageAligned,
    InvalidPhysicalAddress,
    MemoryAttributeInvalid,
    /// Failed to copy HEKI pages from VTL0.
    HekiPagesCopyFailed,
    KernelDataTypeInvalid,
    ModuleMemoryTypeInvalid,
    SystemCertificatesNotLoaded,
    /// No system certificate found in kernel data.
    SystemCertificatesNotFound,
    /// No valid system certificates parsed.
    SystemCertificatesInvalid,
    /// Invalid DER certificate data.
    CertificateDerLengthInvalid { expected: usize, actual: usize },
    CertificateParseFailed,
    /// The module ELF size exceeds the maximum allowed.
    ModuleElfSizeExceeded { size: usize, max: usize },
    /// Found unexpected relocations in loaded module.
    ModuleRelocationInvalid,
    ModuleTokenInvalid,
    /// Physical frames overlap already-protected or reserved memory.
    ProtectedFrameOverlap,
    KernelSymbolTableNotFound,
    KexecTypeInvalid,
    KexecImageSegmentsInvalid,
    KexecSegmentRangeInvalid,
    /// Precomputed patch data not found.
    PrecomputedPatchNotFound,
    /// Text patch validation failed.
    TextPatchSuspicious,
    /// Something is not supported.
    OperationNotSupported(&'static str),
    /// Failed to copy data from/to VTL0.
    Vtl0CopyFailed,
    HypercallFailed(HypervCallError),
    SignatureVerificationFailed(VerificationError),
    /// The buffer is too small for something.
    BufferTooSmall(&'static str),
    InvalidVirtualAddress,
    SymbolTableEmpty,
    SymbolTableOutOfRange,
    /// Symbol table length not aligned to symbol size.
    SymbolTableLengthInvalid,
    /// Symbol name offset out of bounds.
    SymbolNameOffsetInvalid,
    /// Symbol name missing NUL terminator.
    SymbolNameNoTerminator,
    /// Symbol name exceeds maximum length.
    SymbolNameTooLong,
    /// Symbol name contains invalid UTF-8.
    SymbolNameInvalidUtf8,
}

/// The error number of a VSM error.
pub open spec fn vsm_errno(e: VsmError) -> i32 {
    match e {
        VsmError::InvalidInputAddress | VsmError::InvalidPhysicalAddress
        | VsmError::InvalidVirtualAddress | VsmError::CpuOnlineMaskCopyFailed
        | VsmError::HekiPagesCopyFailed | VsmError::Vtl0CopyFailed => Errno::EFAULT,
        VsmError::SystemCertificatesNotFound | VsmError::KernelSymbolTableNotFound
        | VsmError::PrecomputedPatchNotFound => Errno::ENOENT,
        VsmError::OperationAfterEndOfBoot(_) => Errno::EPERM,
        VsmError::OperationNotSupported(_) => Errno::ENOTSUP,
        VsmError::TextPatchSuspicious | VsmError::SystemCertificatesInvalid
        | VsmError::SystemCertificatesNotLoaded => Errno::EACCES,
        VsmError::BufferTooSmall(_) | VsmError::KexecSegmentRangeInvalid
        | VsmError::ModuleElfSizeExceeded { .. } | VsmError::CodePageOffsetOverflow
        | VsmError::IntegerOverflow | VsmError::SymbolNameTooLong
        | VsmError::SymbolTableOutOfRange => Errno::ERANGE,
        VsmError::ApInitFailed(_) | VsmError::HypercallFailed(_) => Errno::EIO,
        VsmError::SignatureVerificationFailed(e) => verification_errno(e),
        _ => Errno::EINVAL,
    }
}

impl From<VerificationError> for VsmError {
    fn from(e: VerificationError) -> (r: Self) {
        VsmError::SignatureVerificationFailed(e)
    }
}

impl vstd::std_specs::convert::FromSpecImpl<VerificationError> for VsmError {
    open spec fn obeys_from_spec() -> bool {
        true
    }

    open spec fn from_spec(e: VerificationError) -> Self {
        VsmError::SignatureVerificationFailed(e)
    }
}

impl From<VsmError> for Errno {
    fn from(e: VsmError) -> (r: Self) {
        let number: i32 = match e {
            VsmError::InvalidInputAddress | VsmError::InvalidPhysicalAddress
            | VsmError::InvalidVirtualAddress | VsmError::CpuOnlineMaskCopyFailed
            | VsmError::HekiPagesCopyFailed | VsmError::Vtl0CopyFailed => Errno::EFAULT,
            VsmError::SystemCertificatesNotFound | VsmError::KernelSymbolTableNotFound
            | VsmError::PrecomputedPatchNotFound => Errno::ENOENT,
            VsmError::OperationAfterEndOfBoot(_) => Errno::EPERM,
            VsmError::OperationNotSupported(_) => Errno::ENOTSUP,
            VsmError::TextPatchSuspicious | VsmError::SystemCertificatesInvalid
            | VsmError::SystemCertificatesNotLoaded => Errno::EACCES,
            VsmError::BufferTooSmall(_) | VsmError::KexecSegmentRangeInvalid
            | VsmError::ModuleElfSizeExceeded { .. } | VsmError::CodePageOffsetOverflow
            | VsmError::IntegerOverflow | VsmError::SymbolNameTooLong
            | VsmError::SymbolTableOutOfRange => Errno::ERANGE,
            VsmError::ApInitFailed(_) | VsmError::HypercallFailed(_) => Errno::EIO,
            VsmError::SignatureVerificationFailed(e) => {
                return Errno::from(e);
            },
            _ => Errno::EINVAL,
        };
        Errno { number }
    }
}

impl vstd::std_specs::convert::FromSpecImpl<VsmError> for Errno {
    open spec fn obeys_from_spec() -> bool {
        true
    }

    open spec fn from_spec(e: VsmError) -> Self {
        Errno { number: vsm_errno(e) }
    }
}

} // verus!
