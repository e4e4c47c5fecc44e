use litebox::linux::errno::Errno;
use litebox::lvbs::addresses::contiguous_pages;
use litebox::lvbs::errors::{HypervCallError, VerificationError, VsmError};
use litebox::lvbs::gates::{FrameRange, Vtl0Gate};
use litebox::lvbs::heki::{
    mod_mem_type_to_mem_attr, HekiKdataType, HekiKexecType, HekiPage, HekiPatch, HekiPatchInfo,
    HekiRange, MemAttr, ModMemType,
};
use litebox::lvbs::kernel::{HekiKernelInfo, HekiKernelSymbol, Kimage, ModuleSignature};
use litebox::lvbs::VsmFunction;

fn range(va: u64, pa: u64, epa: u64, attributes: u64) -> HekiRange {
    HekiRange { va, pa, epa, attributes }
}

#[test]
fn ranges_hold_addresses() {
    assert!(range(0, 0, 0, 0).is_valid());
    assert!(range(0xffff_8000_0000_0000, 0x1000, 0x2000, 99).is_valid());
    // Not canonical
    assert!(!range(0x8000_0000_0000, 0x1000, 0x2000, 1).is_valid());
    // Not physical
    assert!(!range(0, 0x10_0000_0000_0000, 0x2000, 1).is_valid());
    assert!(!range(0, 0, 0x10_0000_0000_0000, 1).is_valid());
    assert!(range(0, 0, 0xf_ffff_ffff_ffff, 1).is_valid());
    // The wrong way round
    assert!(!range(0, 0x2000, 0x1000, 1).is_valid());
}

#[test]
fn ranges_are_aligned_or_not() {
    assert!(range(0x1000, 0x2000, 0x3000, 0).is_aligned(0x1000));
    assert!(!range(0x1000, 0x2000, 0x3000, 0).is_aligned(0x2000));
    assert!(!range(0x1001, 0x2000, 0x3000, 0).is_aligned(0x1000));
    assert!(!range(0x1000, 0x2001, 0x3000, 0).is_aligned(0x1000));
    assert!(range(1, 2, 3, 0).is_aligned(1));
}

#[test]
fn attributes_of_ranges() {
    let r = range(0, 0, 0, 3);
    assert_eq!(r.mem_attr(), Some(MemAttr { bits: 3 }));
    assert_eq!(r.mod_mem_type(), ModMemType::RoAfterInit);
    assert_eq!(r.heki_kdata_type(), HekiKdataType::KernelInfo);
    assert_eq!(r.heki_kexec_type(), HekiKexecType::Unknown);
    assert_eq!(range(0, 0, 0, 2).heki_kexec_type(), HekiKexecType::KexecPages);
    assert_eq!(range(0, 0, 0, 9).mod_mem_type(), ModMemType::Unknown);
}

#[test]
fn module_memory_is_never_writable_and_executable() {
    for t in [
        ModMemType::Text,
        ModMemType::Data,
        ModMemType::RoData,
        ModMemType::RoAfterInit,
        ModMemType::InitText,
        ModMemType::InitData,
        ModMemType::InitRoData,
        ModMemType::ElfBuffer,
        ModMemType::Patch,
        ModMemType::Unknown,
    ] {
        let bits = mod_mem_type_to_mem_attr(t).bits;
        let both = MemAttr::MEM_ATTR_WRITE | MemAttr::MEM_ATTR_EXEC;
        assert_ne!(bits & both, both);
    }
    assert_eq!(
        mod_mem_type_to_mem_attr(ModMemType::Text).bits,
        MemAttr::MEM_ATTR_READ | MemAttr::MEM_ATTR_EXEC
    );
    assert_eq!(mod_mem_type_to_mem_attr(ModMemType::Patch).bits, 0);
}

fn put(bytes: &mut [u8], at: usize, value: u64) {
    bytes[at..at + 8].copy_from_slice(&value.to_le_bytes());
}

#[test]
fn pages_of_ranges() {
    let mut bytes = vec![0u8; 4096];
    put(&mut bytes, 0, 7);
    put(&mut bytes, 8, 0x5000);
    put(&mut bytes, 16, 2);
    for k in 0..2u64 {
        let at = 24 + 32 * k as usize;
        put(&mut bytes, at, 0x10 * k);
        put(&mut bytes, at + 8, 0x1000 * k);
        put(&mut bytes, at + 16, 0x1000 * k + 0x1000);
        put(&mut bytes, at + 24, 5);
    }
    let mut page = HekiPage::from_bytes(&bytes).unwrap();
    assert_eq!((page.next, page.next_pa, page.nranges), (7, 0x5000, 2));
    assert!(page.is_valid());
    let used = page.iter();
    assert_eq!(used, vec![range(0, 0, 0x1000, 5), range(0x10, 0x1000, 0x2000, 5)]);

    page.next_pa = 0x5001;
    assert!(!page.is_valid());
    page.next_pa = 0;
    assert!(page.is_valid());
    page.nranges = 0;
    assert!(!page.is_valid());
    page.nranges = 128;
    assert!(!page.is_valid());
    page.nranges = 127;
    assert!(page.is_valid());
    page.ranges[126].pa = 1;
    assert!(!page.is_valid());

    assert!(HekiPage::from_bytes(&bytes[1..]).is_none());
    assert!(!HekiPage::new().is_valid());
    let empty = HekiPage::default();
    assert_eq!((empty.next, empty.next_pa, empty.nranges), (0, 0, 0));
    assert_eq!(empty.ranges, vec![range(0, 0, 0, 0); 127]);
}

fn patch(pa_first: u64, pa_second: u64, size: u8) -> HekiPatch {
    HekiPatch { pa: [pa_first, pa_second], size, code: [1, 2, 3, 4, 5] }
}

#[test]
fn patches_lie_on_one_page_or_two() {
    assert!(patch(0x1ffb, 0, 5).is_valid());
    assert!(!patch(0x1ffb, 0x3000, 5).is_valid());
    assert!(patch(0x1ffc, 0x3000, 5).is_valid());
    assert!(!patch(0x1ffc, 0, 5).is_valid());
    assert!(!patch(0x1ffc, 0x3001, 5).is_valid());
    assert!(patch(0x1000, 0, 5).is_valid());
    assert!(!patch(0, 0, 5).is_valid());
    assert!(!patch(0x1000, 0, 0).is_valid());
    assert!(!patch(0x1000, 0, 6).is_valid());
    assert!(!patch(0x10_0000_0000_0000, 0, 5).is_valid());
    assert!(!patch(0x1ffc, 0x10_0000_0000_0000, 5).is_valid());
    // On the last page there is, with a second page that is none
    assert!(!patch(0xf_ffff_ffff_fffc, 0x3001, 5).is_valid());
    assert!(!patch(0xf_ffff_ffff_fffc, 0x10_0000_0000_0000, 5).is_valid());

    let mut bytes = vec![0u8; 24];
    put(&mut bytes, 0, 0x1ffc);
    put(&mut bytes, 8, 0x3000);
    bytes[16] = 5;
    bytes[17..22].copy_from_slice(&[9, 8, 7, 6, 5]);
    let p = HekiPatch::try_from_bytes(&bytes).unwrap();
    assert_eq!((p.pa, p.size, p.code), ([0x1ffc, 0x3000], 5, [9, 8, 7, 6, 5]));
    bytes[16] = 0;
    assert!(HekiPatch::try_from_bytes(&bytes).is_none());
    assert!(HekiPatch::try_from_bytes(&bytes[..23]).is_none());
}

#[test]
fn patch_information() {
    let mut bytes = vec![0u8; 48];
    put(&mut bytes, 32, 3);
    put(&mut bytes, 40, 3);
    let info = HekiPatchInfo::try_from_bytes(&bytes).unwrap();
    assert_eq!((info.typ_, info.patch_index, info.max_patch_count), (0, 3, 3));
    put(&mut bytes, 32, 4);
    assert!(HekiPatchInfo::try_from_bytes(&bytes).is_none());
    put(&mut bytes, 32, 0);
    assert!(HekiPatchInfo::try_from_bytes(&bytes).is_none());
    put(&mut bytes, 32, 1);
    bytes[0] = 1;
    assert!(HekiPatchInfo::try_from_bytes(&bytes).is_none());
}

#[test]
fn spans_are_covered_by_pages() {
    assert_eq!(contiguous_pages(0x1fff, 2).unwrap(), (vec![0x1000, 0x2000], 0xfff));
    assert_eq!(contiguous_pages(0x1000, 0x1000).unwrap(), (vec![0x1000], 0));
    assert_eq!(contiguous_pages(0x1234, 0).unwrap(), (vec![], 0));
    assert!(matches!(contiguous_pages(u64::MAX, 1), Err(VsmError::IntegerOverflow)));
}

#[test]
fn signatures_of_modules() {
    let bytes = [0, 0, 2, 0, 0, 0, 0, 0, 0, 0, 1, 2];
    let s = ModuleSignature::from_bytes(&bytes).unwrap();
    assert_eq!(s.sig_len(), 0x102);
    assert!(s.is_valid());
    for i in [0usize, 1, 2, 3, 4] {
        let mut other = bytes;
        other[i] += 1;
        assert!(!ModuleSignature::from_bytes(&other).unwrap().is_valid());
    }
    let mut empty = bytes;
    empty[10] = 0;
    empty[11] = 0;
    assert!(!ModuleSignature::from_bytes(&empty).unwrap().is_valid());
    assert!(ModuleSignature::from_bytes(&bytes[1..]).is_none());
}

#[test]
fn images_symbols_and_kernel_information() {
    let mut bytes = vec![0u8; 584];
    put(&mut bytes, 64, 2);
    put(&mut bytes, 72 + 32, 11);
    put(&mut bytes, 72 + 32 + 16, 13);
    let image = Kimage::from_bytes(&bytes).unwrap();
    assert_eq!(image.nr_segments, 2);
    assert_eq!(image.segment.len(), 16);
    assert_eq!((image.segment[1].buf, image.segment[1].mem), (11, 13));
    assert!(Kimage::from_bytes(&bytes[1..]).is_none());

    let mut symbol = vec![0u8; 13];
    symbol[0..4].copy_from_slice(&(-5i32).to_le_bytes());
    symbol[4..8].copy_from_slice(&6i32.to_le_bytes());
    let s = HekiKernelSymbol::from_bytes(&symbol).unwrap();
    assert_eq!((s.value_offset, s.name_offset, s.namespace_offset), (-5, 6, 0));
    assert!(matches!(
        HekiKernelSymbol::from_bytes(&symbol[..11]),
        Err(VsmError::BufferTooSmall("HekiKernelSymbol"))
    ));

    let mut info = vec![0u8; HekiKernelInfo::KINFO_LEN];
    put(&mut info, 8, 21);
    assert_eq!(HekiKernelInfo::from_bytes(&info).unwrap().ksymtab_end, 21);
    assert!(matches!(
        HekiKernelInfo::from_bytes(&info[1..]),
        Err(VsmError::BufferTooSmall("HekiKernelInfo"))
    ));
}

#[test]
fn error_numbers() {
    let e = |v: VsmError| Errno::from(v).number;
    assert_eq!(e(VsmError::InvalidInputAddress), Errno::EFAULT);
    assert_eq!(e(VsmError::KernelSymbolTableNotFound), Errno::ENOENT);
    assert_eq!(e(VsmError::OperationAfterEndOfBoot("loading")), Errno::EPERM);
    assert_eq!(e(VsmError::OperationNotSupported("it")), Errno::ENOTSUP);
    assert_eq!(e(VsmError::TextPatchSuspicious), Errno::EACCES);
    assert_eq!(e(VsmError::IntegerOverflow), Errno::ERANGE);
    assert_eq!(e(VsmError::HypercallFailed(HypervCallError::TimeOut)), Errno::EIO);
    assert_eq!(e(VsmError::AddressNotPageAligned), Errno::EINVAL);
    assert_eq!(
        e(VsmError::from(VerificationError::AuthenticationFailed)),
        Errno::EKEYREJECTED
    );
    assert_eq!(Errno::from(VerificationError::ParseFailed).number, Errno::ELIBBAD);
    assert_eq!(Errno::from(VerificationError::SignatureNotFound).number, Errno::ENODATA);
}

#[test]
fn hypercall_statuses() {
    for status in 0..300 {
        if let Some(e) = HypervCallError::from_status(status) {
            assert_eq!(e.status(), status);
        }
    }
    assert_eq!(HypervCallError::from_status(0), None);
    assert_eq!(HypervCallError::from_status(2), Some(HypervCallError::InvalidCode));
}

#[test]
fn functions_by_their_numbers() {
    for id in 0..0x2_0000 {
        if let Some(f) = VsmFunction::from_id(id) {
            assert_eq!(f.id(), id);
        }
    }
    assert!(VsmFunction::from_id(0).is_none());
}

/// The memory of VTL0, of which some pages cannot be read.
struct Memory {
    bytes: Vec<u8>,
}

impl Vtl0Gate for Memory {
    fn read_vtl0_pages(&self, pages: &[u64], offset: usize, out: &mut [u8]) -> Result<(), VsmError> {
        let mut at = offset;
        for byte in out.iter_mut() {
            let page = pages[at / 4096] as usize;
            *byte = *self.bytes.get(page + at % 4096).ok_or(VsmError::Vtl0CopyFailed)?;
            at += 1;
        }
        Ok(())
    }

    fn protect_frames(&self, _range: FrameRange, _attr: MemAttr) -> Result<(), VsmError> {
        Ok(())
    }

    fn unprotect_frames(&self, _range: FrameRange) -> Result<(), VsmError> {
        Ok(())
    }

    fn install_ringbuffer(&self, _pa: u64, _size: u64) {}

    fn end_of_boot_reached(&self) -> bool {
        false
    }

    fn lock_control_registers(&self) -> Result<(), VsmError> {
        Ok(())
    }
}

#[test]
fn contiguous_memory_is_read() {
    let bytes: Vec<u8> = (0..3 * 4096usize).map(|i| (i / 16) as u8).collect();
    let memory = Memory { bytes: bytes.clone() };
    let mut out = vec![0u8; 5000];
    memory.read_vtl0_contiguous(4000, &mut out).unwrap();
    assert_eq!(out, bytes[4000..9000].to_vec());
    assert!(matches!(
        memory.read_vtl0_contiguous(8000, &mut out),
        Err(VsmError::Vtl0CopyFailed)
    ));
    assert!(matches!(
        memory.read_vtl0_contiguous(u64::MAX - 5, &mut out),
        Err(VsmError::IntegerOverflow)
    ));
    memory.read_vtl0_contiguous(u64::MAX, &mut []).unwrap();
}
