//! What holds of the structures that are passed between trust levels.
use crate::bits::lemma_module_bits;
use crate::lvbs::addresses::{covers, page_of};
use crate::lvbs::errors::{
    verification_errno, vsm_errno, HypervCallError, VerificationError, VsmError,
};
use crate::lvbs::heki::{
    kdata_type, kexec_type, module_memory_attr, module_memory_type, range_at, HekiPage, HekiPatch,
    HekiPatchInfo, HekiRange, ModMemType,
};
use crate::lvbs::kernel::{
    segment_at, signed, HekiKernelInfo, HekiKernelSymbol, Kimage, ModuleSignature,
};
use crate::lvbs::wire::{be_u32_at, u32_at, u64_at};
use crate::lvbs::VsmFunction;
use vstd::prelude::*;

verus! {

/// The bytes of a number are its digits to the base 256, the least significant one first, or the
/// most significant one first.
pub proof fn lemma_bytes_are_digits(s: Seq<u8>, at: int)
    ensures
        u32_at(s, at) % 0x100 == s[at],
        u32_at(s, at) / 0x100 % 0x100 == s[at + 1],
        u32_at(s, at) / 0x1_0000 % 0x100 == s[at + 2],
        u32_at(s, at) / 0x100_0000 == s[at + 3],
        be_u32_at(s, at) % 0x100 == s[at + 3],
        be_u32_at(s, at) / 0x100 % 0x100 == s[at + 2],
        be_u32_at(s, at) / 0x1_0000 % 0x100 == s[at + 1],
        be_u32_at(s, at) / 0x100_0000 == s[at],
{
}

/// A long number is two numbers of half its length, the less significant one first.
pub proof fn lemma_long_numbers(s: Seq<u8>, at: int)
    ensures
        u64_at(s, at) % 0x1_0000_0000 == u32_at(s, at),
        u64_at(s, at) / 0x1_0000_0000 == u32_at(s, at + 4),
{
}

/// A signed number has the bits of the unsigned one: they differ by a multiple of 2^32.
pub proof fn lemma_signed_has_same_bits(n: u32)
    ensures
        signed(n) == n || signed(n) == n - 0x1_0000_0000,
        signed(n) >= 0 <==> n < 0x8000_0000,
{
}

/// The fields of a range, of a segment, of a patch and of what is known of patches follow each other
/// as long numbers.
pub proof fn lemma_fields_follow_each_other(s: Seq<u8>, at: int)
    ensures
        range_at(s, at).va == u64_at(s, at),
        range_at(s, at).pa == u64_at(s, at + 8),
        range_at(s, at).epa == u64_at(s, at + 16),
        range_at(s, at).attributes == u64_at(s, at + 24),
        segment_at(s, at).buf == u64_at(s, at),
        segment_at(s, at).bufsz == u64_at(s, at + 8),
        segment_at(s, at).mem == u64_at(s, at + 16),
        segment_at(s, at).memsz == u64_at(s, at + 24),
        HekiPatch::parsed(s).pa[0] == u64_at(s, 0),
        HekiPatch::parsed(s).pa[1] == u64_at(s, 8),
        HekiPatch::parsed(s).size == s[16],
        forall|k: int| 0 <= k < 5 ==> #[trigger] HekiPatch::parsed(s).code[k] == s[17 + k],
        HekiPatchInfo::parsed(s).typ_ == u32_at(s, 0),
        HekiPatchInfo::parsed(s).patch_index == u64_at(s, 32),
        HekiPatchInfo::parsed(s).max_patch_count == u64_at(s, 40),
{
}

/// A page of ranges is 4096 bytes: three long numbers, and then 127 ranges of 32 bytes.
pub proof fn lemma_page_is_parsed(bytes: Seq<u8>, r: Option<HekiPage>, k: int)
    requires
        HekiPage::is_parsed(bytes, r),
        0 <= k < 127,
    ensures
        r is Some <==> bytes.len() == 4096,
        r is Some ==> {
            &&& r->Some_0.next == u64_at(bytes, 0)
            &&& r->Some_0.next_pa == u64_at(bytes, 8)
            &&& r->Some_0.nranges == u64_at(bytes, 16)
            &&& r->Some_0.ranges@.len() == 127
            &&& r->Some_0.ranges@[k].va == u64_at(bytes, 24 + 32 * k)
            &&& r->Some_0.ranges@[k].pa == u64_at(bytes, 32 + 32 * k)
            &&& r->Some_0.ranges@[k].epa == u64_at(bytes, 40 + 32 * k)
            &&& r->Some_0.ranges@[k].attributes == u64_at(bytes, 48 + 32 * k)
        },
{
}

/// A signature is 12 bytes, with its length in the last four, the most significant one first.
pub proof fn lemma_signature_is_parsed(bytes: Seq<u8>, r: Option<ModuleSignature>)
    requires
        ModuleSignature::is_parsed(bytes, r),
    ensures
        r is Some <==> bytes.len() == 12,
        r is Some ==> {
            &&& r->Some_0.algo == bytes[0]
            &&& r->Some_0.hash == bytes[1]
            &&& r->Some_0.id_type == bytes[2]
            &&& r->Some_0.signer_len == bytes[3]
            &&& r->Some_0.key_id_len == bytes[4]
            &&& r->Some_0.sig_len / 0x100_0000 == bytes[8]
            &&& r->Some_0.sig_len % 0x100 == bytes[11]
            &&& r->Some_0.sig_len == be_u32_at(bytes, 8)
        },
{
}

/// A signature is valid exactly if it is of the kind with the number 2, has a length, and all else
/// is zero.
pub proof fn lemma_valid_signatures(s: ModuleSignature)
    ensures
        s.is_valid_spec() <==> s.id_type == 2 && s.sig_len != 0 && s.algo == 0 && s.hash == 0
            && s.signer_len == 0 && s.key_id_len == 0,
{
}

/// An image to boot is 584 bytes: the number of segments stands at byte 64, and then come 16
/// segments of 32 bytes.
pub proof fn lemma_image_is_parsed(bytes: Seq<u8>, r: Option<Kimage>, k: int)
    requires
        Kimage::is_parsed(bytes, r),
        0 <= k < 16,
    ensures
        r is Some <==> bytes.len() == 584,
        r is Some ==> {
            &&& r->Some_0.nr_segments == u64_at(bytes, 64)
            &&& r->Some_0.segment@.len() == 16
            &&& r->Some_0.segment@[k].buf == u64_at(bytes, 72 + 32 * k)
            &&& r->Some_0.segment@[k].bufsz == u64_at(bytes, 80 + 32 * k)
            &&& r->Some_0.segment@[k].mem == u64_at(bytes, 88 + 32 * k)
            &&& r->Some_0.segment@[k].memsz == u64_at(bytes, 96 + 32 * k)
        },
{
}

/// A symbol is three signed numbers, and where the symbols are is four long numbers. Fewer bytes
/// are refused, and more are not looked at.
pub proof fn lemma_symbols_are_parsed(
    bytes: Seq<u8>,
    r: Result<HekiKernelSymbol, VsmError>,
    q: Result<HekiKernelInfo, VsmError>,
)
    requires
        HekiKernelSymbol::is_parsed(bytes, r),
        HekiKernelInfo::is_parsed(bytes, q),
    ensures
        r is Ok <==> bytes.len() >= 12,
        r is Ok ==> {
            &&& r->Ok_0.value_offset == signed(u32_at(bytes, 0))
            &&& r->Ok_0.name_offset == signed(u32_at(bytes, 4))
            &&& r->Ok_0.namespace_offset == signed(u32_at(bytes, 8))
        },
        r is Err ==> r->Err_0 is BufferTooSmall,
        q is Ok <==> bytes.len() >= 32,
        q is Ok ==> {
            &&& q->Ok_0.ksymtab_start == u64_at(bytes, 0)
            &&& q->Ok_0.ksymtab_end == u64_at(bytes, 8)
            &&& q->Ok_0.ksymtab_gpl_start == u64_at(bytes, 16)
            &&& q->Ok_0.ksymtab_gpl_end == u64_at(bytes, 24)
        },
        q is Err ==> q->Err_0 is BufferTooSmall,
{
}

/// A range is valid exactly if it does not end before it starts, its ends are below 2^52, and its
/// virtual address is in the lower or the upper half.
pub proof fn lemma_valid_ranges(range: HekiRange)
    ensures
        range.is_valid_spec() <==> range.pa <= range.epa && range.epa < 0x10_0000_0000_0000 && (
        range.va < 0x8000_0000_0000 || range.va >= 0xffff_8000_0000_0000),
{
}

/// A page is valid exactly if it holds one to 127 ranges, all of them valid, and the next one is at
/// a multiple of 4096 below 2^52.
pub proof fn lemma_valid_pages(page: HekiPage)
    ensures
        page.is_valid_spec() <==> {
            &&& page.next_pa < 0x10_0000_0000_0000
            &&& page.next_pa % 4096 == 0
            &&& page.nranges >= 1
            &&& page.nranges <= 127
            &&& forall|k: int|
                0 <= k < page.nranges ==> (#[trigger] page.ranges@[k]).is_valid_spec()
        },
{
}

/// A patch is valid only if it is one to five bytes long and has a second page exactly if it reaches
/// over the end of its first one.
pub proof fn lemma_valid_patches(patch: HekiPatch)
    ensures
        patch.is_valid_spec() ==> {
            &&& 1 <= patch.size <= 5
            &&& 0 < patch.pa[0] < 0x10_0000_0000_0000
            &&& patch.pa[1] < 0x10_0000_0000_0000
            &&& patch.pa[1] % 4096 == 0
            &&& patch.pa[1] != 0 <==> patch.pa[0] % 4096 + patch.size > 4096
        },
        1 <= patch.size <= 5 && 0 < patch.pa[0] < 0x10_0000_0000_0000 && patch.pa[1] == 0
            && patch.pa[0] % 4096 + patch.size <= 4096 ==> patch.is_valid_spec(),
        1 <= patch.size <= 5 && 0 < patch.pa[0] < 0x10_0000_0000_0000 && 0 < patch.pa[1]
            < 0x10_0000_0000_0000 && patch.pa[1] % 4096 == 0 && patch.pa[0] % 4096 + patch.size
            > 4096 ==> patch.is_valid_spec(),
{
}

/// What is known of patches is valid exactly if they are jump labels, which have the number zero,
/// and the index is at least one and no larger than the count.
pub proof fn lemma_valid_patch_infos(info: HekiPatchInfo)
    ensures
        info.is_valid_spec() <==> info.typ_ == 0 && 1 <= info.patch_index && info.patch_index
            <= info.max_patch_count,
{
}

/// Code of a module can be read and executed, data can be read and written, what is read-only can be
/// read: the bits 1, 2 and 4 are to read, to write and to execute. All else cannot be accessed.
pub proof fn lemma_module_memory_permissions(t: ModMemType)
    ensures
        module_memory_attr(t) == match t {
            ModMemType::Text | ModMemType::InitText => 5u64,
            ModMemType::Data | ModMemType::InitData | ModMemType::RoAfterInit => 3u64,
            ModMemType::RoData | ModMemType::InitRoData => 1u64,
            ModMemType::ElfBuffer | ModMemType::Patch | ModMemType::Unknown => 0u64,
        },
{
    lemma_module_bits();
}

/// Types are numbered from zero on, and what has no number is unknown.
pub proof fn lemma_types_are_numbered(n: u64, m: u64)
    ensures
        kdata_type(n) is Unknown <==> n >= 7,
        kdata_type(n) == kdata_type(m) ==> n == m || (n >= 7 && m >= 7),
        kdata_type(0) is SystemCerts,
        kdata_type(1) is RevocationCerts,
        kdata_type(2) is BlocklistHashes,
        kdata_type(3) is KernelInfo,
        kdata_type(4) is KernelData,
        kdata_type(5) is PatchInfo,
        kdata_type(6) is KexecTrampoline,
        kexec_type(n) is Unknown <==> n >= 3,
        kexec_type(0) is KexecImage,
        kexec_type(1) is KexecKernelBlob,
        kexec_type(2) is KexecPages,
        module_memory_type(n) is Unknown <==> n >= 9,
        module_memory_type(0) is Text,
        module_memory_type(1) is Data,
        module_memory_type(2) is RoData,
        module_memory_type(3) is RoAfterInit,
        module_memory_type(4) is InitText,
        module_memory_type(5) is InitData,
        module_memory_type(6) is InitRoData,
        module_memory_type(7) is ElfBuffer,
        module_memory_type(8) is Patch,
{
}

/// Every byte of a span lies on one of the pages that cover it: byte `i` of the span is byte
/// `offset + i` of the pages, one after the other.
pub proof fn lemma_every_byte_is_covered(
    phys_addr: u64,
    len: int,
    pages: Seq<u64>,
    offset: u64,
    i: int,
)
    requires
        covers(phys_addr, len, pages, offset),
        0 <= i < len,
    ensures
        offset < 4096,
        0 <= (offset + i) / 4096 < pages.len(),
        pages[(offset + i) / 4096] + (offset + i) % 4096 == phys_addr + i,
{
    let first = page_of(phys_addr as int);
    let last = page_of(phys_addr + len - 1);
    let k = (offset + i) / 4096;
    assert(first + offset == phys_addr);
    assert(first % 4096 == 0 && last % 4096 == 0);
    assert(pages.len() == (last - first) / 4096 + 1);
    assert(k <= (last - first) / 4096);
    assert(pages[k] == first + k * 4096);
}

/// No page is covered that holds no byte of the span.
pub proof fn lemma_only_needed_pages_are_covered(
    phys_addr: u64,
    len: int,
    pages: Seq<u64>,
    offset: u64,
    k: int,
)
    requires
        covers(phys_addr, len, pages, offset),
        0 < len,
        0 <= k < pages.len(),
    ensures
        pages[k] % 4096 == 0,
        pages[k] < phys_addr + len,
        phys_addr < pages[k] + 4096,
{
    let first = page_of(phys_addr as int);
    let last = page_of(phys_addr + len - 1);
    assert(first % 4096 == 0 && last % 4096 == 0);
    assert(pages.len() == (last - first) / 4096 + 1);
    assert(pages[k] == first + k * 4096);
}

/// The status of each error of the hypervisor; no two have the same.
pub proof fn lemma_hypervisor_statuses(a: HypervCallError, b: HypervCallError)
    ensures
        a.status_spec() == b.status_spec() ==> a == b,
        HypervCallError::InvalidCode.status_spec() == 2,
        HypervCallError::InvalidInput.status_spec() == 3,
        HypervCallError::InvalidAlignment.status_spec() == 4,
        HypervCallError::InvalidParameter.status_spec() == 5,
        HypervCallError::AccessDenied.status_spec() == 6,
        HypervCallError::OperationDenied.status_spec() == 8,
        HypervCallError::InsufficientMemory.status_spec() == 11,
        HypervCallError::InvalidPortID.status_spec() == 17,
        HypervCallError::InvalidConnectionID.status_spec() == 18,
        HypervCallError::InsufficientBuffers.status_spec() == 19,
        HypervCallError::TimeOut.status_spec() == 120,
        HypervCallError::AlreadyEnabled.status_spec() == 134,
        HypervCallError::Unknown.status_spec() == 0xffff_ffff,
{
}

/// Functions are numbered from 0x1ffe0 on.
pub proof fn lemma_function_numbers()
    ensures
        VsmFunction::EnableAPsVtl.id_spec() == 0x1_ffe0,
        VsmFunction::BootAPs.id_spec() == 0x1_ffe1,
        VsmFunction::LockRegs.id_spec() == 0x1_ffe2,
        VsmFunction::SignalEndOfBoot.id_spec() == 0x1_ffe3,
        VsmFunction::ProtectMemory.id_spec() == 0x1_ffe4,
        VsmFunction::LoadKData.id_spec() == 0x1_ffe5,
        VsmFunction::ValidateModule.id_spec() == 0x1_ffe6,
        VsmFunction::FreeModuleInit.id_spec() == 0x1_ffe7,
        VsmFunction::UnloadModule.id_spec() == 0x1_ffe8,
        VsmFunction::CopySecondaryKey.id_spec() == 0x1_ffe9,
        VsmFunction::KexecValidate.id_spec() == 0x1_ffea,
        VsmFunction::PatchText.id_spec() == 0x1_ffeb,
        VsmFunction::AllocateRingbufferMemory.id_spec() == 0x1_ffec,
        VsmFunction::SetPlatformRootKey.id_spec() == 0x1_ffed,
        VsmFunction::GenerateIdentitySigningKey.id_spec() == 0x1_ffee,
        VsmFunction::OpteeMessage.id_spec() == 0x1_fff0,
{
}

/// What fails to verify is reported as a rejected key (129), missing data (61), a missing package
/// (65), a missing key (126) or a bad library (80), also where it failed on the way to something
/// else.
pub proof fn lemma_verification_errors(e: VerificationError)
    ensures
        verification_errno(e) == match e {
            VerificationError::AuthenticationFailed => 129i32,
            VerificationError::SignatureNotFound => 61i32,
            VerificationError::Unsupported => 65i32,
            VerificationError::InvalidCertificate => 126i32,
            VerificationError::InvalidSignature | VerificationError::ParseFailed => 80i32,
        },
        vsm_errno(VsmError::SignatureVerificationFailed(e)) == verification_errno(e),
{
}

/// What fails otherwise is reported by its kind: an address that is none or cannot be copied from
/// (14), something that is not found (2), an operation that comes too late (1) or is not supported
/// (95), something that is not trusted (13), numbers out of range (34), the hypervisor (5). All else
/// is an invalid argument (22).
pub proof fn lemma_other_errors(e: VsmError)
    requires
        !(e is SignatureVerificationFailed),
    ensures
        vsm_errno(e) == 14 <==> e is InvalidInputAddress || e is InvalidPhysicalAddress
            || e is InvalidVirtualAddress || e is CpuOnlineMaskCopyFailed || e is HekiPagesCopyFailed
            || e is Vtl0CopyFailed,
        vsm_errno(e) == 2 <==> e is SystemCertificatesNotFound || e is KernelSymbolTableNotFound
            || e is PrecomputedPatchNotFound,
        vsm_errno(e) == 1 <==> e is OperationAfterEndOfBoot,
        vsm_errno(e) == 95 <==> e is OperationNotSupported,
        vsm_errno(e) == 13 <==> e is TextPatchSuspicious || e is SystemCertificatesInvalid
            || e is SystemCertificatesNotLoaded,
        vsm_errno(e) == 34 <==> e is BufferTooSmall || e is KexecSegmentRangeInvalid
            || e is ModuleElfSizeExceeded || e is CodePageOffsetOverflow || e is IntegerOverflow
            || e is SymbolNameTooLong || e is SymbolTableOutOfRange,
        vsm_errno(e) == 5 <==> e is ApInitFailed || e is HypercallFailed,
        vsm_errno(e) == 14 || vsm_errno(e) == 2 || vsm_errno(e) == 1 || vsm_errno(e) == 95
            || vsm_errno(e) == 13 || vsm_errno(e) == 34 || vsm_errno(e) == 5 || vsm_errno(e) == 22,
{
}

} // verus!
