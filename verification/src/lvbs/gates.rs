//! What the platform offers to those that act on VTL0, and to those that set up VTL1.
use crate::lvbs::addresses;
use crate::lvbs::addresses::covers;
use crate::lvbs::errors::VsmError;
use crate::lvbs::heki::MemAttr;
use vstd::prelude::*;

verus! {

/// A range of physical frames of 4 KiB: the address of the first one, and the address behind the
/// last one.
#[derive(Clone, Copy, Debug, PartialEq, Eq, Structural)]
pub struct FrameRange {
    pub start: u64,
    pub end: u64,
}

/// Operations on VTL0.
///
/// The platform owns the protected-frame registry (to deal with TOCTOU and confused deputy) and
/// rejects use of this interface against VTL1 frames and protected VTL0 frames.
pub trait Vtl0Gate {
    /// The outcomes that reading into a buffer with the contents `before` may have: any, unless the
    /// platform says more.
    open spec fn read_outcome(
        &self,
        pages: Seq<u64>,
        offset: int,
        before: Seq<u8>,
        after: Seq<u8>,
        r: Result<(), VsmError>,
    ) -> bool {
        true
    }

    /// Copy `out.len()` bytes out of VTL0 physical memory, starting at `offset` within the first
    /// page of `pages`, into `out`. The pages need not be physically contiguous; use
    /// [`Self::read_vtl0_contiguous`] when the source is a single contiguous span.
    fn read_vtl0_pages(&self, pages: &[u64], offset: usize, out: &mut [u8]) -> (r: Result<
        (),
        VsmError,
    >)
        ensures
            self.read_outcome(pages@, offset as int, old(out)@, final(out)@, r),
            final(out)@.len() == old(out)@.len(),
    ;

    /// Directly set VTL0 protection on a frame range: no reservation, no rollback. Use when the
    /// caller already trusts the frames, or is re-protecting frames the registry already owns.
    fn protect_frames(&self, range: FrameRange, attr: MemAttr) -> Result<(), VsmError>;

    /// Release a frame range the registry currently protects, restoring VTL0 read/write access:
    /// the standalone inverse of [`Self::protect_frames`].
    fn unprotect_frames(&self, range: FrameRange) -> Result<(), VsmError>;

    /// Install a VTL0 physical buffer as the platform's log ring buffer.
    fn install_ringbuffer(&self, pa: u64, size: u64);

    /// Whether VTL0 has signalled end of boot, i.e., whether VTL1's window of trusting VTL0 has
    /// closed. Operations that are only legitimate while VTL0 is still trusted must refuse once
    /// this returns `true`.
    fn end_of_boot_reached(&self) -> bool;

    /// Lock VTL0's control registers by arming the hypervisor CR/MSR intercepts and snapshotting
    /// their current values into VTL1 per-CPU state.
    fn lock_control_registers(&self) -> Result<(), VsmError>;

    /// Read `out.len()` bytes from a contiguous VTL0 physical-memory span starting at `phys_addr`,
    /// into `out`. The span may cross page boundaries; the covered pages are required to be
    /// physically contiguous. Use [`Self::read_vtl0_pages`] when they are not.
    fn read_vtl0_contiguous(&self, phys_addr: u64, out: &mut [u8]) -> (r: Result<(), VsmError>)
        ensures
            final(out)@.len() == old(out)@.len(),
            ({
                let len = old(out)@.len() as int;
                if len == 0 {
                    r is Ok && final(out)@ == old(out)@
                } else if phys_addr + len > u64::MAX {
                    r is Err && r->Err_0 is IntegerOverflow && final(out)@ == old(out)@
                } else {
                    exists|pages: Seq<u64>, offset: u64| #[trigger]
                        covers(phys_addr, len, pages, offset) && self.read_outcome(
                            pages,
                            offset as int,
                            old(out)@,
                            final(out)@,
                            r,
                        )
                }
            }),
    {
        if out.len() == 0 {
            return Ok(());
        }
        match addresses::contiguous_pages(phys_addr, out.len() as u64) {
            Ok((pages, offset)) => {
                let ghost before = out@;
                let r = self.read_vtl0_pages(pages.as_slice(), offset as usize, out);
                assert(covers(phys_addr, before.len() as int, pages@, offset));
                r
            },
            Err(e) => Err(e),
        }
    }
}

/// Authority to write VTL0 memory with the VTL0 protection masks **bypassed**.
///
/// Deliberately not part of [`Vtl0Gate`]: it is strictly more dangerous than everything there, so
/// it is granted per-operation rather than held ambiently. A holder of [`Vtl0Gate`] alone cannot
/// bypass a protection mask.
pub trait Vtl0PrivilegedWrite {
    /// Copy `bytes` into VTL0 physical memory, starting at `offset` within the first page of
    /// `pages`, bypassing VTL0 protection masks. The pages need not be physically contiguous.
    fn write_vtl0_pages(&self, pages: &[u64], offset: usize, bytes: &[u8]) -> Result<(), VsmError>;
}

/// VTL1 setup steps that VTL0 requests over a VTL call. All mutate VTL1/platform state rather than
/// VTL0.
pub trait Vtl1Gate {
    /// Enable VTL1 on the APs named in the VTL0 `cpu_present_mask` page at `cpu_present_mask_pfn`,
    /// ahead of [`Self::boot_aps`].
    fn enable_aps_vtl(&self, cpu_present_mask_pfn: u64) -> Result<(), VsmError>;

    /// Bring VTL1 up on every online AP named in the VTL0 `cpu_online_mask` page at
    /// `cpu_online_mask_pfn`.
    fn boot_aps(&self, cpu_online_mask_pfn: u64) -> Result<(), VsmError>;

    /// Read the platform root key from VTL0 `key_pa` and store it in VTL1 state.
    fn set_platform_root_key(&self, key_pa: u64) -> Result<(), VsmError>;

    /// Close VTL1's window of trusting VTL0, making [`Vtl0Gate::end_of_boot_reached`] report `true`
    /// from here on. One-way: the window never reopens.
    fn signal_end_of_boot(&self);
}

/// Outcome of reserving a physical frame range within a transaction.
#[derive(Debug, Clone, Copy, PartialEq, Eq, Structural)]
pub enum ReservationStatus {
    /// The range was newly reserved by this transaction.
    New,
    /// The range was already owned by the protected-frame registry.
    AlreadyOwned,
}

/// Restricted handle for transactions that reserve frames.
///
/// The only way to reserve/protect frames within a transaction; the concrete reservation guard
/// stays private in the platform.
pub trait FrameTxn {
    /// Reserve the given physical frame ranges within this transaction, returning the reservation
    /// status of each range.
    fn reserve(&mut self, ranges: &[FrameRange]) -> Result<Vec<ReservationStatus>, VsmError>;

    /// Apply the given memory attributes to a reserved physical frame range.
    fn protect(&mut self, range: FrameRange, attr: MemAttr) -> Result<(), VsmError>;
}

} // verus!
