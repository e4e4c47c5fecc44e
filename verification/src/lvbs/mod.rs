//! Shared VSM/HEKI wire types and constants.
use vstd::prelude::*;

pub mod addresses;
pub mod errors;
pub mod gates;
pub mod heki;
pub mod kernel;
pub mod laws;
pub mod wire;

verus! {

pub const PAGE_SIZE: usize = 4096;

pub const PAGE_SHIFT: usize = 12;

/// Length of the Platform Root Key in bytes.
pub const PRK_LEN: usize = 32;

/// Maximum number of CPU cores addressable through the VTL0 `cpu_online_mask` ABI. Bounds how many
/// bits of the mask VTL1 will honor when booting APs.
pub const MAX_CORES: usize = 128;

/// VTL call parameters (`param[0]`: function ID, `param[1..4]`: parameters)
pub const NUM_VTLCALL_PARAMS: usize = 4;

pub const VSM_VTL_CALL_FUNC_ID_ENABLE_APS_VTL: u32 = 0x1_ffe0;

pub const VSM_VTL_CALL_FUNC_ID_BOOT_APS: u32 = 0x1_ffe1;

pub const VSM_VTL_CALL_FUNC_ID_LOCK_REGS: u32 = 0x1_ffe2;

pub const VSM_VTL_CALL_FUNC_ID_SIGNAL_END_OF_BOOT: u32 = 0x1_ffe3;

pub const VSM_VTL_CALL_FUNC_ID_PROTECT_MEMORY: u32 = 0x1_ffe4;

pub const VSM_VTL_CALL_FUNC_ID_LOAD_KDATA: u32 = 0x1_ffe5;

pub const VSM_VTL_CALL_FUNC_ID_VALIDATE_MODULE: u32 = 0x1_ffe6;

pub const VSM_VTL_CALL_FUNC_ID_FREE_MODULE_INIT: u32 = 0x1_ffe7;

pub const VSM_VTL_CALL_FUNC_ID_UNLOAD_MODULE: u32 = 0x1_ffe8;

pub const VSM_VTL_CALL_FUNC_ID_COPY_SECONDARY_KEY: u32 = 0x1_ffe9;

pub const VSM_VTL_CALL_FUNC_ID_KEXEC_VALIDATE: u32 = 0x1_ffea;

pub const VSM_VTL_CALL_FUNC_ID_PATCH_TEXT: u32 = 0x1_ffeb;

pub const VSM_VTL_CALL_FUNC_ID_ALLOCATE_RINGBUFFER_MEMORY: u32 = 0x1_ffec;

pub const VSM_VTL_CALL_FUNC_ID_SET_PLATFORM_ROOT_KEY: u32 = 0x1_ffed;

pub const VSM_VTL_CALL_FUNC_ID_GENERATE_IDENTITY_SIGNING_KEY: u32 = 0x1_ffee;

pub const VSM_VTL_CALL_FUNC_ID_OPTEE_MESSAGE: u32 = 0x1_fff0;

/// VSM Functions.
#[derive(Clone, Copy, Debug, PartialEq, Eq, Structural)]
pub enum VsmFunction {
    EnableAPsVtl,
    BootAPs,
    LockRegs,
    SignalEndOfBoot,
    ProtectMemory,
    LoadKData,
    ValidateModule,
    FreeModuleInit,
    UnloadModule,
    CopySecondaryKey,
    KexecValidate,
    PatchText,
    OpteeMessage,
    AllocateRingbufferMemory,
    SetPlatformRootKey,
    GenerateIdentitySigningKey,
}

impl VsmFunction {
    /// The function ID.
    pub open spec fn id_spec(self) -> u32 {
        match self {
            VsmFunction::EnableAPsVtl => VSM_VTL_CALL_FUNC_ID_ENABLE_APS_VTL,
            VsmFunction::BootAPs => VSM_VTL_CALL_FUNC_ID_BOOT_APS,
            VsmFunction::LockRegs => VSM_VTL_CALL_FUNC_ID_LOCK_REGS,
            VsmFunction::SignalEndOfBoot => VSM_VTL_CALL_FUNC_ID_SIGNAL_END_OF_BOOT,
            VsmFunction::ProtectMemory => VSM_VTL_CALL_FUNC_ID_PROTECT_MEMORY,
            VsmFunction::LoadKData => VSM_VTL_CALL_FUNC_ID_LOAD_KDATA,
            VsmFunction::ValidateModule => VSM_VTL_CALL_FUNC_ID_VALIDATE_MODULE,
            VsmFunction::FreeModuleInit => VSM_VTL_CALL_FUNC_ID_FREE_MODULE_INIT,
            VsmFunction::UnloadModule => VSM_VTL_CALL_FUNC_ID_UNLOAD_MODULE,
            VsmFunction::CopySecondaryKey => VSM_VTL_CALL_FUNC_ID_COPY_SECONDARY_KEY,
            VsmFunction::KexecValidate => VSM_VTL_CALL_FUNC_ID_KEXEC_VALIDATE,
            VsmFunction::PatchText => VSM_VTL_CALL_FUNC_ID_PATCH_TEXT,
            VsmFunction::OpteeMessage => VSM_VTL_CALL_FUNC_ID_OPTEE_MESSAGE,
            VsmFunction::AllocateRingbufferMemory =>
                VSM_VTL_CALL_FUNC_ID_ALLOCATE_RINGBUFFER_MEMORY,
            VsmFunction::SetPlatformRootKey => VSM_VTL_CALL_FUNC_ID_SET_PLATFORM_ROOT_KEY,
            VsmFunction::GenerateIdentitySigningKey =>
                VSM_VTL_CALL_FUNC_ID_GENERATE_IDENTITY_SIGNING_KEY,
        }
    }

    /// The function ID.
    pub fn id(self) -> (r: u32)
        ensures
            r == self.id_spec(),
    {
        match self {
            VsmFunction::EnableAPsVtl => VSM_VTL_CALL_FUNC_ID_ENABLE_APS_VTL,
            VsmFunction::BootAPs => VSM_VTL_CALL_FUNC_ID_BOOT_APS,
            VsmFunction::LockRegs => VSM_VTL_CALL_FUNC_ID_LOCK_REGS,
            VsmFunction::SignalEndOfBoot => VSM_VTL_CALL_FUNC_ID_SIGNAL_END_OF_BOOT,
            VsmFunction::ProtectMemory => VSM_VTL_CALL_FUNC_ID_PROTECT_MEMORY,
            VsmFunction::LoadKData => VSM_VTL_CALL_FUNC_ID_LOAD_KDATA,
            VsmFunction::ValidateModule => VSM_VTL_CALL_FUNC_ID_VALIDATE_MODULE,
            VsmFunction::FreeModuleInit => VSM_VTL_CALL_FUNC_ID_FREE_MODULE_INIT,
            VsmFunction::UnloadModule => VSM_VTL_CALL_FUNC_ID_UNLOAD_MODULE,
            VsmFunction::CopySecondaryKey => VSM_VTL_CALL_FUNC_ID_COPY_SECONDARY_KEY,
            VsmFunction::KexecValidate => VSM_VTL_CALL_FUNC_ID_KEXEC_VALIDATE,
            VsmFunction::PatchText => VSM_VTL_CALL_FUNC_ID_PATCH_TEXT,
            VsmFunction::OpteeMessage => VSM_VTL_CALL_FUNC_ID_OPTEE_MESSAGE,
            VsmFunction::AllocateRingbufferMemory =>
                VSM_VTL_CALL_FUNC_ID_ALLOCATE_RINGBUFFER_MEMORY,
            VsmFunction::SetPlatformRootKey => VSM_VTL_CALL_FUNC_ID_SET_PLATFORM_ROOT_KEY,
            VsmFunction::GenerateIdentitySigningKey =>
                VSM_VTL_CALL_FUNC_ID_GENERATE_IDENTITY_SIGNING_KEY,
        }
    }

    /// The function with an ID.
    pub fn from_id(id: u32) -> (r: Option<VsmFunction>)
        ensures
            r is Some ==> r->Some_0.id_spec() == id,
            r is Some <==> (VSM_VTL_CALL_FUNC_ID_ENABLE_APS_VTL <= id
                <= VSM_VTL_CALL_FUNC_ID_GENERATE_IDENTITY_SIGNING_KEY || id
                == VSM_VTL_CALL_FUNC_ID_OPTEE_MESSAGE),
    {
        if id == VSM_VTL_CALL_FUNC_ID_ENABLE_APS_VTL {
            Some(VsmFunction::EnableAPsVtl)
        } else if id == VSM_VTL_CALL_FUNC_ID_BOOT_APS {
            Some(VsmFunction::BootAPs)
        } else if id == VSM_VTL_CALL_FUNC_ID_LOCK_REGS {
            Some(VsmFunction::LockRegs)
        } else if id == VSM_VTL_CALL_FUNC_ID_SIGNAL_END_OF_BOOT {
            Some(VsmFunction::SignalEndOfBoot)
        } else if id == VSM_VTL_CALL_FUNC_ID_PROTECT_MEMORY {
            Some(VsmFunction::ProtectMemory)
        } else if id == VSM_VTL_CALL_FUNC_ID_LOAD_KDATA {
            Some(VsmFunction::LoadKData)
        } else if id == VSM_VTL_CALL_FUNC_ID_VALIDATE_MODULE {
            Some(VsmFunction::ValidateModule)
        } else if id == VSM_VTL_CALL_FUNC_ID_FREE_MODULE_INIT {
            Some(VsmFunction::FreeModuleInit)
        } else if id == VSM_VTL_CALL_FUNC_ID_UNLOAD_MODULE {
            Some(VsmFunction::UnloadModule)
        } else if id == VSM_VTL_CALL_FUNC_ID_COPY_SECONDARY_KEY {
            Some(VsmFunction::CopySecondaryKey)
        } else if id == VSM_VTL_CALL_FUNC_ID_KEXEC_VALIDATE {
            Some(VsmFunction::KexecValidate)
        } else if id == VSM_VTL_CALL_FUNC_ID_PATCH_TEXT {
            Some(VsmFunction::PatchText)
        } else if id == VSM_VTL_CALL_FUNC_ID_OPTEE_MESSAGE {
            Some(VsmFunction::OpteeMessage)
        } else if id == VSM_VTL_CALL_FUNC_ID_ALLOCATE_RINGBUFFER_MEMORY {
            Some(VsmFunction::AllocateRingbufferMemory)
        } else if id == VSM_VTL_CALL_FUNC_ID_SET_PLATFORM_ROOT_KEY {
            Some(VsmFunction::SetPlatformRootKey)
        } else if id == VSM_VTL_CALL_FUNC_ID_GENERATE_IDENTITY_SIGNING_KEY {
            Some(VsmFunction::GenerateIdentitySigningKey)
        } else {
            None
        }
    }
}

/// No two functions have the same ID.
pub proof fn lemma_function_ids_are_distinct(f: VsmFunction, g: VsmFunction)
    requires
        f.id_spec() == g.id_spec(),
    ensures
        f == g,
{
}

} // verus!
