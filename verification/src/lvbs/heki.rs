//! What HEKI is asked to protect.
use crate::bits::lemma_page_bits;
use crate::lvbs::addresses;
use crate::lvbs::addresses::{is_canonical, is_physical, is_power_of_two, PAGE, PHYS_LIMIT};
use crate::lvbs::wire::{read_u32, read_u64, u32_at, u64_at};
use vstd::prelude::*;

verus! {

/// Memory attributes. Any bit may be set.
#[derive(Clone, Copy, Debug, PartialEq, Eq, Structural)]
pub struct MemAttr {
    pub bits: u64,
}

impl MemAttr {
    pub const MEM_ATTR_READ: u64 = 1;
    pub const MEM_ATTR_WRITE: u64 = 2;
    pub const MEM_ATTR_EXEC: u64 = 4;
    pub const MEM_ATTR_IMMUTABLE: u64 = 8;
}

#[derive(Clone, Copy, Debug, PartialEq, Eq, Structural)]
pub enum HekiKdataType {
    SystemCerts,
    RevocationCerts,
    BlocklistHashes,
    KernelInfo,
    KernelData,
    PatchInfo,
    KexecTrampoline,
    Unknown,
}

/// The kernel data type with a number.
pub open spec fn kdata_type(n: u64) -> HekiKdataType {
    if n == 0 {
        HekiKdataType::SystemCerts
    } else if n == 1 {
        HekiKdataType::RevocationCerts
    } else if n == 2 {
        HekiKdataType::BlocklistHashes
    } else if n == 3 {
        HekiKdataType::KernelInfo
    } else if n == 4 {
        HekiKdataType::KernelData
    } else if n == 5 {
        HekiKdataType::PatchInfo
    } else if n == 6 {
        HekiKdataType::KexecTrampoline
    } else {
        HekiKdataType::Unknown
    }
}

#[derive(Clone, Copy, Debug, PartialEq, Eq, Structural)]
pub enum HekiKexecType {
    KexecImage,
    KexecKernelBlob,
    KexecPages,
    Unknown,
}

/// The kexec type with a number.
pub open spec fn kexec_type(n: u64) -> HekiKexecType {
    if n == 0 {
        HekiKexecType::KexecImage
    } else if n == 1 {
        HekiKexecType::KexecKernelBlob
    } else if n == 2 {
        HekiKexecType::KexecPages
    } else {
        HekiKexecType::Unknown
    }
}

#[derive(Clone, Copy, Debug, PartialEq, Eq, Structural)]
pub enum ModMemType {
    Text,
    Data,
    RoData,
    RoAfterInit,
    InitText,
    InitData,
    InitRoData,
    ElfBuffer,
    Patch,
    Unknown,
}

/// The module memory type with a number.
pub open spec fn module_memory_type(n: u64) -> ModMemType {
    if n == 0 {
        ModMemType::Text
    } else if n == 1 {
        ModMemType::Data
    } else if n == 2 {
        ModMemType::RoData
    } else if n == 3 {
        ModMemType::RoAfterInit
    } else if n == 4 {
        ModMemType::InitText
    } else if n == 5 {
        ModMemType::InitData
    } else if n == 6 {
        ModMemType::InitRoData
    } else if n == 7 {
        ModMemType::ElfBuffer
    } else if n == 8 {
        ModMemType::Patch
    } else {
        ModMemType::Unknown
    }
}

/// The permissions of a module memory type.
pub open spec fn module_memory_attr(t: ModMemType) -> u64 {
    match t {
        ModMemType::Text | ModMemType::InitText => MemAttr::MEM_ATTR_READ | MemAttr::MEM_ATTR_EXEC,
        ModMemType::Data | ModMemType::RoAfterInit | ModMemType::InitData =>
            MemAttr::MEM_ATTR_READ | MemAttr::MEM_ATTR_WRITE,
        ModMemType::RoData | ModMemType::InitRoData => MemAttr::MEM_ATTR_READ,
        _ => 0,
    }
}

/// Maps a module memory-type to the corresponding [`MemAttr`] permission set.
pub fn mod_mem_type_to_mem_attr(mod_mem_type: ModMemType) -> (r: MemAttr)
    ensures
        r.bits == module_memory_attr(mod_mem_type),
{
    let bits: u64 = match mod_mem_type {
        ModMemType::Text | ModMemType::InitText => MemAttr::MEM_ATTR_READ | MemAttr::MEM_ATTR_EXEC,
        ModMemType::Data | ModMemType::RoAfterInit | ModMemType::InitData =>
            MemAttr::MEM_ATTR_READ | MemAttr::MEM_ATTR_WRITE,
        ModMemType::RoData | ModMemType::InitRoData => MemAttr::MEM_ATTR_READ,
        _ => 0,
    };
    MemAttr { bits }
}

/// No module memory is both writable and executable.
pub proof fn lemma_module_memory_is_w_xor_x(t: ModMemType)
    ensures
        module_memory_attr(t) & MemAttr::MEM_ATTR_WRITE == 0 || module_memory_attr(t)
            & MemAttr::MEM_ATTR_EXEC == 0,
{
    assert((1u64 | 4) & 2 == 0 && (1u64 | 2) & 4 == 0 && 1u64 & 2 == 0 && 0u64 & 2 == 0)
        by (bit_vector);
}

/// `HekiRange` is a generic container for various types of memory ranges.
/// It has an `attributes` field which can be interpreted differently based on the context like
/// `MemAttr`, `KdataType`, `ModMemType`, or `KexecType`.
#[derive(Clone, Copy, Debug, PartialEq, Eq, Structural)]
pub struct HekiRange {
    pub va: u64,
    pub pa: u64,
    pub epa: u64,
    pub attributes: u64,
}

/// The size of a [`HekiRange`].
pub const HEKI_RANGE_LEN: usize = 32;

/// The range whose bytes start at a position.
pub open spec fn range_at(s: Seq<u8>, at: int) -> HekiRange {
    HekiRange {
        va: u64_at(s, at),
        pa: u64_at(s, at + 8),
        epa: u64_at(s, at + 16),
        attributes: u64_at(s, at + 24),
    }
}

impl HekiRange {
    /// Whether the addresses are addresses, and the end is not before the start.
    pub open spec fn is_valid_spec(self) -> bool {
        &&& is_canonical(self.va)
        &&& is_physical(self.pa)
        &&& is_physical(self.epa)
        &&& self.pa <= self.epa
    }

    /// Whether all addresses of the range have an alignment.
    pub fn is_aligned(&self, align: u64) -> (r: bool)
        requires
            is_canonical(self.va),
            is_physical(self.pa),
            is_physical(self.epa),
            is_power_of_two(align),
        ensures
            r == (self.va % align == 0 && self.pa % align == 0 && self.epa % align == 0),
    {
        addresses::virt_is_aligned(self.va, align) && addresses::phys_is_aligned(self.pa, align)
            && addresses::phys_is_aligned(self.epa, align)
    }

    /// The attributes, as memory attributes.
    pub fn mem_attr(&self) -> (r: Option<MemAttr>)
        ensures
            r == Some(MemAttr { bits: self.attributes }),
    {
        Some(MemAttr { bits: self.attributes })
    }

    /// The attributes, as a module memory type.
    pub fn mod_mem_type(&self) -> (r: ModMemType)
        ensures
            r == module_memory_type(self.attributes),
    {
        match self.attributes {
            0 => ModMemType::Text,
            1 => ModMemType::Data,
            2 => ModMemType::RoData,
            3 => ModMemType::RoAfterInit,
            4 => ModMemType::InitText,
            5 => ModMemType::InitData,
            6 => ModMemType::InitRoData,
            7 => ModMemType::ElfBuffer,
            8 => ModMemType::Patch,
            _ => ModMemType::Unknown,
        }
    }

    /// The attributes, as a kernel data type.
    pub fn heki_kdata_type(&self) -> (r: HekiKdataType)
        ensures
            r == kdata_type(self.attributes),
    {
        match self.attributes {
            0 => HekiKdataType::SystemCerts,
            1 => HekiKdataType::RevocationCerts,
            2 => HekiKdataType::BlocklistHashes,
            3 => HekiKdataType::KernelInfo,
            4 => HekiKdataType::KernelData,
            5 => HekiKdataType::PatchInfo,
            6 => HekiKdataType::KexecTrampoline,
            _ => HekiKdataType::Unknown,
        }
    }

    /// The attributes, as a kexec type.
    pub fn heki_kexec_type(&self) -> (r: HekiKexecType)
        ensures
            r == kexec_type(self.attributes),
    {
        match self.attributes {
            0 => HekiKexecType::KexecImage,
            1 => HekiKexecType::KexecKernelBlob,
            2 => HekiKexecType::KexecPages,
            _ => HekiKexecType::Unknown,
        }
    }

    /// Whether the addresses are addresses, and the end is not before the start. As any attributes
    /// are memory attributes, no range is refused for its attributes.
    pub fn is_valid(&self) -> (r: bool)
        ensures
            r == self.is_valid_spec(),
    {
        if !addresses::phys_is_valid(self.pa) {
            return false;
        }
        if !addresses::phys_is_valid(self.epa) {
            return false;
        }
        !(!addresses::virt_is_valid(self.va) || self.epa < self.pa || (self.mem_attr().is_none()
            && self.heki_kdata_type() == HekiKdataType::Unknown && self.heki_kexec_type()
            == HekiKexecType::Unknown && self.mod_mem_type() == ModMemType::Unknown))
    }
}

/// How many ranges a page holds: what is left of it after three words.
pub const HEKI_MAX_RANGES: usize = 127;

/// The size of a [`HekiPage`].
pub const HEKI_PAGE_LEN: usize = 4096;

/// Where the ranges of a [`HekiPage`] start.
pub const HEKI_PAGE_RANGES: usize = 24;

/// A page of ranges.
#[derive(Debug)]
pub struct HekiPage {
    /// Pointer to next page (stored as u64 since we don't dereference it)
    pub next: u64,
    pub next_pa: u64,
    pub nranges: u64,
    pub ranges: Vec<HekiRange>,
}

impl HekiPage {
    /// A page holds room for a fixed number of ranges.
    pub open spec fn wf(&self) -> bool {
        self.ranges@.len() == HEKI_MAX_RANGES
    }

    /// Whether the page is valid: the next page, if there is one, is at a page boundary, there is
    /// at least one range and no more than there is room for, and each of them is valid.
    pub open spec fn is_valid_spec(&self) -> bool {
        &&& is_physical(self.next_pa)
        &&& self.next_pa % PAGE == 0
        &&& 1 <= self.nranges <= HEKI_MAX_RANGES
        &&& forall|k: int|
            0 <= k < self.nranges ==> (#[trigger] self.ranges@[k]).is_valid_spec()
    }

    /// The page that some bytes hold, if there are as many as it takes.
    pub open spec fn is_parsed(bytes: Seq<u8>, r: Option<HekiPage>) -> bool {
        &&& r is Some <==> bytes.len() == HEKI_PAGE_LEN
        &&& r is Some ==> {
            &&& r->Some_0.wf()
            &&& r->Some_0.next == u64_at(bytes, 0)
            &&& r->Some_0.next_pa == u64_at(bytes, 8)
            &&& r->Some_0.nranges == u64_at(bytes, 16)
            &&& forall|k: int|
                0 <= k < HEKI_MAX_RANGES ==> #[trigger] r->Some_0.ranges@[k] == range_at(
                    bytes,
                    HEKI_PAGE_RANGES + k * HEKI_RANGE_LEN,
                )
        }
    }

    /// A page of zeros.
    pub fn new() -> (r: Self)
        ensures
            r.wf(),
            r.next == 0,
            r.next_pa == 0,
            r.nranges == 0,
            forall|k: int|
                0 <= k < r.ranges@.len() ==> #[trigger] r.ranges@[k] == (HekiRange {
                    va: 0,
                    pa: 0,
                    epa: 0,
                    attributes: 0,
                }),
    {
        let mut ranges: Vec<HekiRange> = Vec::new();
        while ranges.len() < HEKI_MAX_RANGES
            invariant
                ranges.len() <= HEKI_MAX_RANGES,
                forall|k: int|
                    0 <= k < ranges@.len() ==> #[trigger] ranges@[k] == (HekiRange {
                        va: 0,
                        pa: 0,
                        epa: 0,
                        attributes: 0,
                    }),
            decreases HEKI_MAX_RANGES - ranges.len(),
        {
            ranges.push(HekiRange { va: 0, pa: 0, epa: 0, attributes: 0 });
        }
        HekiPage { next: 0, next_pa: 0, nranges: 0, ranges }
    }

    /// The page that some bytes hold.
    pub fn from_bytes(bytes: &[u8]) -> (r: Option<HekiPage>)
        ensures
            Self::is_parsed(bytes@, r),
    {
        if bytes.len() != HEKI_PAGE_LEN {
            return None;
        }
        let mut ranges: Vec<HekiRange> = Vec::new();
        let mut at: usize = HEKI_PAGE_RANGES;
        while ranges.len() < HEKI_MAX_RANGES
            invariant
                bytes@.len() == HEKI_PAGE_LEN,
                ranges.len() <= HEKI_MAX_RANGES,
                at == HEKI_PAGE_RANGES + ranges.len() * HEKI_RANGE_LEN,
                forall|k: int|
                    0 <= k < ranges@.len() ==> #[trigger] ranges@[k] == range_at(
                        bytes@,
                        HEKI_PAGE_RANGES + k * HEKI_RANGE_LEN,
                    ),
            decreases HEKI_MAX_RANGES - ranges.len(),
        {
            ranges.push(
                HekiRange {
                    va: read_u64(bytes, at),
                    pa: read_u64(bytes, at + 8),
                    epa: read_u64(bytes, at + 16),
                    attributes: read_u64(bytes, at + 24),
                },
            );
            at = at + HEKI_RANGE_LEN;
        }
        Some(
            HekiPage {
                next: read_u64(bytes, 0),
                next_pa: read_u64(bytes, 8),
                nranges: read_u64(bytes, 16),
                ranges,
            },
        )
    }

    /// Whether the page is valid.
    pub fn is_valid(&self) -> (r: bool)
        requires
            self.wf(),
        ensures
            r == self.is_valid_spec(),
    {
        if !addresses::phys_is_valid(self.next_pa) {
            return false;
        }
        assert(is_power_of_two(4096)) by {
            lemma_page_bits();
        }
        if self.next_pa != 0 && !addresses::phys_is_aligned(self.next_pa, 4096) {
            return false;
        }
        if self.nranges < 1 || self.nranges > HEKI_MAX_RANGES as u64 {
            return false;
        }
        let n: usize = self.nranges as usize;
        let mut k: usize = 0;
        while k < n
            invariant
                k <= n,
                n == self.nranges,
                n <= HEKI_MAX_RANGES,
                self.wf(),
                forall|j: int| 0 <= j < k ==> (#[trigger] self.ranges@[j]).is_valid_spec(),
            decreases n - k,
        {
            if !self.ranges[k].is_valid() {
                return false;
            }
            k = k + 1;
        }
        true
    }

    /// The ranges that the page holds.
    pub fn iter(&self) -> (r: Vec<HekiRange>)
        requires
            self.wf(),
            self.nranges <= HEKI_MAX_RANGES,
        ensures
            r@ == self.ranges@.take(self.nranges as int),
    {
        let n: usize = self.nranges as usize;
        let mut out: Vec<HekiRange> = Vec::new();
        let mut k: usize = 0;
        while k < n
            invariant
                k <= n,
                n == self.nranges,
                n <= self.ranges@.len(),
                out@ =~= self.ranges@.take(k as int),
            decreases n - k,
        {
            out.push(self.ranges[k]);
            k = k + 1;
        }
        out
    }
}

impl Default for HekiPage {
    fn default() -> (r: Self)
        ensures
            r.wf(),
            r.next == 0,
            r.next_pa == 0,
            r.nranges == 0,
            forall|k: int|
                0 <= k < r.ranges@.len() ==> #[trigger] r.ranges@[k] == (HekiRange {
                    va: 0,
                    pa: 0,
                    epa: 0,
                    attributes: 0,
                }),
    {
        Self::new()
    }
}

pub const POKE_MAX_OPCODE_SIZE: usize = 5;

/// The size of a [`HekiPatch`].
pub const HEKI_PATCH_LEN: usize = 24;

/// A patch of code, which may lie on two pages.
#[derive(Clone, Copy, Debug)]
pub struct HekiPatch {
    /// Where the patch starts, and where its second page is if there is one.
    pub pa: [u64; 2],
    pub size: u8,
    pub code: [u8; 5],
}

/// How many bytes of a patch lie on its first page.
pub open spec fn bytes_in_first_page(pa: u64, size: u8) -> int {
    let room = PAGE - pa % PAGE;
    if room < size {
        room
    } else {
        size as int
    }
}

impl HekiPatch {
    /// Whether the patch can be looked at: where its addresses are addresses, the end of its first
    /// page is one too.
    pub open spec fn is_bounded(self) -> bool {
        is_physical(self.pa[0]) && self.pa[0] % PAGE != 0 && is_physical(self.pa[1])
            && self.pa[1] % PAGE == 0 ==> self.pa[0] <= PHYS_LIMIT - PAGE
    }

    /// Whether the patch is valid: it has a start and a size, and it has a second page if and only
    /// if it does not fit on the first one.
    pub open spec fn is_valid_spec(self) -> bool {
        &&& is_physical(self.pa[0])
        &&& self.pa[0] != 0
        &&& is_physical(self.pa[1])
        &&& self.pa[1] % PAGE == 0
        &&& 1 <= self.size <= POKE_MAX_OPCODE_SIZE
        &&& self.pa[0] != self.pa[1]
        &&& (self.pa[1] == 0 <==> bytes_in_first_page(self.pa[0], self.size) == self.size)
    }

    /// The patch that some bytes hold, whether it is valid or not.
    pub open spec fn parsed(s: Seq<u8>) -> HekiPatch {
        HekiPatch {
            pa: [u64_at(s, 0), u64_at(s, 8)],
            size: s[16],
            code: [s[17], s[18], s[19], s[20], s[21]],
        }
    }

    /// Creates a new `HekiPatch` with a given buffer. Returns `None` if any field is invalid.
    pub fn try_from_bytes(bytes: &[u8]) -> (r: Option<Self>)
        requires
            bytes@.len() == HEKI_PATCH_LEN ==> Self::parsed(bytes@).is_bounded(),
        ensures
            r is Some <==> bytes@.len() == HEKI_PATCH_LEN && Self::parsed(bytes@).is_valid_spec(),
            r is Some ==> r->Some_0.pa[0] == u64_at(bytes@, 0) && r->Some_0.pa[1] == u64_at(
                bytes@,
                8,
            ) && r->Some_0.size == bytes@[16] && r->Some_0.code@ == bytes@.subrange(17, 22),
    {
        if bytes.len() != HEKI_PATCH_LEN {
            return None;
        }
        let code = [bytes[17], bytes[18], bytes[19], bytes[20], bytes[21]];
        let patch = HekiPatch {
            pa: [read_u64(bytes, 0), read_u64(bytes, 8)],
            size: bytes[16],
            code,
        };
        assert(code@ =~= bytes@.subrange(17, 22));
        if patch.is_valid() {
            Some(patch)
        } else {
            None
        }
    }

    /// Whether the patch is valid.
    pub fn is_valid(&self) -> (r: bool)
        requires
            self.is_bounded(),
        ensures
            r == self.is_valid_spec(),
    {
        assert(is_power_of_two(4096)) by {
            lemma_page_bits();
        }
        if !addresses::phys_is_valid(self.pa[0]) || self.pa[0] == 0 {
            return false;
        }
        if !addresses::phys_is_valid(self.pa[1]) {
            return false;
        }
        if !(self.pa[1] == 0 || addresses::phys_is_aligned(self.pa[1], 4096)) {
            return false;
        }
        let room: u64 = if addresses::phys_is_aligned(self.pa[0], 4096) {
            PAGE
        } else {
            let end: u64 = addresses::phys_page_up(self.pa[0]);
            proof {
                let a = self.pa[0] as int;
                let e = end as int;
                let q = a / 4096;
                assert(a == q * 4096 + a % 4096 && e == (e / 4096) * 4096) by (nonlinear_arith)
                    requires
                        q == a / 4096,
                        e % 4096 == 0,
                ;
                assert(e / 4096 == q + 1) by (nonlinear_arith)
                    requires
                        a == q * 4096 + a % 4096,
                        e == (e / 4096) * 4096,
                        a <= e < a + 4096,
                        a % 4096 > 0,
                        a % 4096 < 4096,
                ;
            }
            end - self.pa[0]
        };
        let first: u64 = if room < self.size as u64 {
            room
        } else {
            self.size as u64
        };
        !(self.size == 0 || self.size as usize > POKE_MAX_OPCODE_SIZE || self.pa[0]
            == self.pa[1] || (first < self.size as u64 && self.pa[1] == 0) || (first
            == self.size as u64 && self.pa[1] != 0))
    }
}

#[derive(Clone, Copy, Debug, PartialEq, Eq, Structural)]
pub enum HekiPatchType {
    JumpLabel,
    Unknown,
}

impl HekiPatchType {
    /// The number of the type.
    pub open spec fn number_spec(self) -> u32 {
        match self {
            HekiPatchType::JumpLabel => 0,
            HekiPatchType::Unknown => 0xffff_ffff,
        }
    }

    /// The number of the type.
    pub fn number(self) -> (r: u32)
        ensures
            r == self.number_spec(),
    {
        match self {
            HekiPatchType::JumpLabel => 0,
            HekiPatchType::Unknown => 0xffff_ffff,
        }
    }
}

/// The size of a [`HekiPatchInfo`].
pub const HEKI_PATCH_INFO_LEN: usize = 48;

/// What is known of the patches of a module.
#[derive(Clone, Copy, Debug, PartialEq, Eq, Structural)]
pub struct HekiPatchInfo {
    /// Patch type stored as u32 (see `HekiPatchType`)
    pub typ_: u32,
    pub patch_index: u64,
    pub max_patch_count: u64,
}

impl HekiPatchInfo {
    /// Whether the information is of jump labels, and counts at least one and not too many.
    pub open spec fn is_valid_spec(self) -> bool {
        &&& self.typ_ == HekiPatchType::JumpLabel.number_spec()
        &&& 1 <= self.patch_index <= self.max_patch_count
    }

    /// The information that some bytes hold, whether it is valid or not.
    pub open spec fn parsed(s: Seq<u8>) -> HekiPatchInfo {
        HekiPatchInfo {
            typ_: u32_at(s, 0),
            patch_index: u64_at(s, 32),
            max_patch_count: u64_at(s, 40),
        }
    }

    /// Creates a new `HekiPatchInfo` with a given buffer. Returns `None` if any field is invalid.
    pub fn try_from_bytes(bytes: &[u8]) -> (r: Option<Self>)
        ensures
            r == if bytes@.len() == HEKI_PATCH_INFO_LEN && Self::parsed(bytes@).is_valid_spec() {
                Some(Self::parsed(bytes@))
            } else {
                None
            },
    {
        if bytes.len() != HEKI_PATCH_INFO_LEN {
            return None;
        }
        let info = HekiPatchInfo {
            typ_: read_u32(bytes, 0),
            patch_index: read_u64(bytes, 32),
            max_patch_count: read_u64(bytes, 40),
        };
        if info.is_valid() {
            Some(info)
        } else {
            None
        }
    }

    /// Whether the information is valid.
    pub fn is_valid(&self) -> (r: bool)
        ensures
            r == self.is_valid_spec(),
    {
        !(self.typ_ != HekiPatchType::JumpLabel.number() || self.patch_index == 0
            || self.patch_index > self.max_patch_count)
    }
}

} // verus!
