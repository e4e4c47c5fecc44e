//! Structures of the Linux kernel.
use crate::lvbs::errors::VsmError;
use crate::lvbs::wire::{be_u32_at, read_be_u32, read_u32, read_u64, u32_at, u64_at};
use vstd::prelude::*;

verus! {

/// `list_head`. Pointer fields stored as u64 since we don't dereference them.
#[derive(Clone, Copy, Debug, PartialEq, Eq, Structural)]
pub struct ListHead {
    pub next: u64,
    pub prev: u64,
}

/// How a key is identified.
#[derive(Clone, Copy, Debug, PartialEq, Eq, Structural)]
pub enum PkeyIdType {
    PkeyIdPgp,
    PkeyIdX509,
    PkeyIdPkcs7,
}

impl PkeyIdType {
    /// The number of the type.
    pub open spec fn number_spec(self) -> u8 {
        match self {
            PkeyIdType::PkeyIdPgp => 0,
            PkeyIdType::PkeyIdX509 => 1,
            PkeyIdType::PkeyIdPkcs7 => 2,
        }
    }

    /// The number of the type.
    pub fn number(self) -> (r: u8)
        ensures
            r == self.number_spec(),
    {
        match self {
            PkeyIdType::PkeyIdPgp => 0,
            PkeyIdType::PkeyIdX509 => 1,
            PkeyIdType::PkeyIdPkcs7 => 2,
        }
    }
}

/// The size of a [`ModuleSignature`].
pub const MODULE_SIGNATURE_LEN: usize = 12;

/// `module_signature`.
#[derive(Clone, Copy, Debug, PartialEq, Eq, Structural)]
pub struct ModuleSignature {
    pub algo: u8,
    pub hash: u8,
    pub id_type: u8,
    pub signer_len: u8,
    pub key_id_len: u8,
    pub sig_len: u32,
}

impl ModuleSignature {
    /// The length of the signature.
    pub open spec fn signature_length(self) -> u32 {
        self.sig_len
    }

    /// Whether the signature is of the kind that modules are signed with.
    pub open spec fn is_valid_spec(self) -> bool {
        self.signature_length() > 0 && self.algo == 0 && self.hash == 0 && self.id_type
            == PkeyIdType::PkeyIdPkcs7.number_spec() && self.signer_len == 0 && self.key_id_len == 0
    }

    /// The structure that some bytes hold, if there are as many as it takes.
    pub open spec fn is_parsed(bytes: Seq<u8>, r: Option<ModuleSignature>) -> bool {
        &&& r is Some <==> bytes.len() == MODULE_SIGNATURE_LEN
        &&& r is Some ==> {
            let s = r->Some_0;
            &&& s.algo == bytes[0]
            &&& s.hash == bytes[1]
            &&& s.id_type == bytes[2]
            &&& s.signer_len == bytes[3]
            &&& s.key_id_len == bytes[4]
            &&& s.signature_length() == be_u32_at(bytes, 8)
        }
    }

    /// The structure that some bytes hold. The length of the signature has its most significant
    /// byte first.
    pub fn from_bytes(bytes: &[u8]) -> (r: Option<ModuleSignature>)
        ensures
            Self::is_parsed(bytes@, r),
    {
        if bytes.len() != MODULE_SIGNATURE_LEN {
            return None;
        }
        Some(
            ModuleSignature {
                algo: bytes[0],
                hash: bytes[1],
                id_type: bytes[2],
                signer_len: bytes[3],
                key_id_len: bytes[4],
                sig_len: read_be_u32(bytes, 8),
            },
        )
    }

    /// The length of the signature.
    pub fn sig_len(&self) -> (r: u32)
        ensures
            r == self.signature_length(),
    {
        self.sig_len
    }

    /// Currently, the kernel only supports PKCS#7 signatures for module signing and thus `id_type`
    /// is always `PkeyIdType::PkeyIdPkcs7`. Other fields except for `sig_len` are set to zero.
    pub fn is_valid(&self) -> (r: bool)
        ensures
            r == self.is_valid_spec(),
    {
        self.sig_len() > 0 && self.algo == 0 && self.hash == 0 && self.id_type
            == PkeyIdType::PkeyIdPkcs7.number() && self.signer_len == 0 && self.key_id_len == 0
    }
}

/// The size of a [`KexecSegment`].
pub const KEXEC_SEGMENT_LEN: usize = 32;

pub const KEXEC_SEGMENT_MAX: usize = 16;

/// `kexec_segment`.
#[derive(Clone, Copy, Debug, PartialEq, Eq, Structural)]
pub struct KexecSegment {
    /// Pointer to buffer (stored as u64 since we don't dereference it)
    pub buf: u64,
    pub bufsz: u64,
    pub mem: u64,
    pub memsz: u64,
}

/// The segment whose bytes start at a position.
pub open spec fn segment_at(s: Seq<u8>, at: int) -> KexecSegment {
    KexecSegment {
        buf: u64_at(s, at),
        bufsz: u64_at(s, at + 8),
        mem: u64_at(s, at + 16),
        memsz: u64_at(s, at + 24),
    }
}

/// The size of a [`Kimage`].
pub const KIMAGE_LEN: usize = 584;

/// Where the segments of a [`Kimage`] start.
pub const KIMAGE_SEGMENTS: usize = 72;

/// `kimage`, the part of it that does not depend on how the kernel was built.
#[derive(Debug)]
pub struct Kimage {
    pub nr_segments: u64,
    pub segment: Vec<KexecSegment>,
}

impl Kimage {
    /// The structure that some bytes hold, if there are as many as it takes.
    pub open spec fn is_parsed(bytes: Seq<u8>, r: Option<Kimage>) -> bool {
        &&& r is Some <==> bytes.len() == KIMAGE_LEN
        &&& r is Some ==> {
            &&& r->Some_0.nr_segments == u64_at(bytes, 64)
            &&& r->Some_0.segment@ == Seq::new(
                KEXEC_SEGMENT_MAX as nat,
                |k: int| segment_at(bytes, KIMAGE_SEGMENTS + k * KEXEC_SEGMENT_LEN),
            )
        }
    }

    /// The structure that some bytes hold.
    pub fn from_bytes(bytes: &[u8]) -> (r: Option<Kimage>)
        ensures
            Self::is_parsed(bytes@, r),
    {
        if bytes.len() != KIMAGE_LEN {
            return None;
        }
        let mut segment: Vec<KexecSegment> = Vec::new();
        let mut at: usize = KIMAGE_SEGMENTS;
        while segment.len() < KEXEC_SEGMENT_MAX
            invariant
                bytes@.len() == KIMAGE_LEN,
                segment.len() <= KEXEC_SEGMENT_MAX,
                at == KIMAGE_SEGMENTS + segment.len() * KEXEC_SEGMENT_LEN,
                forall|k: int|
                    0 <= k < segment.len() ==> #[trigger] segment@[k] == segment_at(
                        bytes@,
                        KIMAGE_SEGMENTS + k * KEXEC_SEGMENT_LEN,
                    ),
            decreases KEXEC_SEGMENT_MAX - segment.len(),
        {
            segment.push(
                KexecSegment {
                    buf: read_u64(bytes, at),
                    bufsz: read_u64(bytes, at + 8),
                    mem: read_u64(bytes, at + 16),
                    memsz: read_u64(bytes, at + 24),
                },
            );
            at = at + KEXEC_SEGMENT_LEN;
        }
        assert(segment@ =~= Seq::new(
            KEXEC_SEGMENT_MAX as nat,
            |k: int| segment_at(bytes@, KIMAGE_SEGMENTS + k * KEXEC_SEGMENT_LEN),
        ));
        Some(Kimage { nr_segments: read_u64(bytes, 64), segment })
    }
}

/// A symbol of the kernel. The offsets are relative to where they stand.
#[derive(Clone, Copy, Debug, PartialEq, Eq, Structural)]
pub struct HekiKernelSymbol {
    pub value_offset: i32,
    pub name_offset: i32,
    pub namespace_offset: i32,
}

/// The signed number with the same bits as an unsigned one.
pub open spec fn signed(n: u32) -> i32 {
    if n < 0x8000_0000 {
        n as i32
    } else {
        (n - 0x1_0000_0000) as i32
    }
}

fn to_signed(n: u32) -> (r: i32)
    ensures
        r == signed(n),
{
    if n < 0x8000_0000 {
        n as i32
    } else {
        (n as i64 - 0x1_0000_0000) as i32
    }
}

impl HekiKernelSymbol {
    pub const KSYM_LEN: usize = 12;
    pub const KSY_NAME_LEN: usize = 512;

    /// The structure that the start of some bytes holds, if there are as many as it takes.
    pub open spec fn is_parsed(bytes: Seq<u8>, r: Result<HekiKernelSymbol, VsmError>) -> bool {
        &&& r is Ok <==> bytes.len() >= Self::KSYM_LEN
        &&& r is Ok ==> r->Ok_0 == (HekiKernelSymbol {
            value_offset: signed(u32_at(bytes, 0)),
            name_offset: signed(u32_at(bytes, 4)),
            namespace_offset: signed(u32_at(bytes, 8)),
        })
        &&& r is Err ==> r->Err_0 is BufferTooSmall && r->Err_0->BufferTooSmall_0@
            == "HekiKernelSymbol"@
    }

    /// The symbol that the start of some bytes holds.
    pub fn from_bytes(bytes: &[u8]) -> (r: Result<Self, VsmError>)
        ensures
            Self::is_parsed(bytes@, r),
    {
        if bytes.len() < Self::KSYM_LEN {
            return Err(VsmError::BufferTooSmall("HekiKernelSymbol"));
        }
        Ok(
            HekiKernelSymbol {
                value_offset: to_signed(read_u32(bytes, 0)),
                name_offset: to_signed(read_u32(bytes, 4)),
                namespace_offset: to_signed(read_u32(bytes, 8)),
            },
        )
    }
}

/// Where the kernel keeps its symbols. Pointers are stored as u64 since we don't dereference them.
#[derive(Clone, Copy, Debug, PartialEq, Eq, Structural)]
pub struct HekiKernelInfo {
    pub ksymtab_start: u64,
    pub ksymtab_end: u64,
    pub ksymtab_gpl_start: u64,
    pub ksymtab_gpl_end: u64,
}

impl HekiKernelInfo {
    pub const KINFO_LEN: usize = 32;

    /// The structure that the start of some bytes holds, if there are as many as it takes.
    pub open spec fn is_parsed(bytes: Seq<u8>, r: Result<HekiKernelInfo, VsmError>) -> bool {
        &&& r is Ok <==> bytes.len() >= Self::KINFO_LEN
        &&& r is Ok ==> r->Ok_0 == (HekiKernelInfo {
            ksymtab_start: u64_at(bytes, 0),
            ksymtab_end: u64_at(bytes, 8),
            ksymtab_gpl_start: u64_at(bytes, 16),
            ksymtab_gpl_end: u64_at(bytes, 24),
        })
        &&& r is Err ==> r->Err_0 is BufferTooSmall && r->Err_0->BufferTooSmall_0@
            == "HekiKernelInfo"@
    }

    /// The structure that the start of some bytes holds.
    pub fn from_bytes(bytes: &[u8]) -> (r: Result<Self, VsmError>)
        ensures
            Self::is_parsed(bytes@, r),
    {
        if bytes.len() < Self::KINFO_LEN {
            return Err(VsmError::BufferTooSmall("HekiKernelInfo"));
        }
        Ok(
            HekiKernelInfo {
                ksymtab_start: read_u64(bytes, 0),
                ksymtab_end: read_u64(bytes, 8),
                ksymtab_gpl_start: read_u64(bytes, 16),
                ksymtab_gpl_end: read_u64(bytes, 24),
            },
        )
    }
}

} // verus!
