//! Sv39: 39-bit virtual addresses, three levels of 512-entry tables.
//!
//! A virtual address holds the page offset (bits 11:0) and VPN[0], VPN[1],
//! VPN[2] (nine bits each from bit 12); bits 63:39 must copy bit 38.
use vstd::prelude::*;
use super::MmuError;
use super::AccessType;
use super::physical::{PhysicalMemory, phys_read_dword};
use super::pte::{PageTableEntry, has_bit, flags};

verus! {

/// Bits of one VPN field.
pub const VPN_WIDTH: u32 = 9;
/// Bits of the page offset.
pub const PAGE_OFFSET_WIDTH: u32 = 12;
/// Levels of the table tree.
pub const LEVELS: usize = 3;
/// Bits of a virtual address.
pub const VA_BITS: u32 = 39;
/// The low 39 bits.
pub const VA_MASK: u64 = 0x7F_FFFF_FFFF;
/// Bytes per page table entry.
pub const PTE_SIZE: u64 = 8;
/// Entries per table.
pub const ENTRIES_PER_TABLE: usize = 512;
/// Bytes per table.
pub const PAGE_TABLE_SIZE: usize = 4096;

/// Whether bits 63:39 of an address all equal bit 38.
pub open spec fn canonical39(addr: u64) -> bool {
    let sign = (addr >> 38u64) & 1;
    let high = (addr >> 39u64) & 0x1FF_FFFF;
    (sign == 0 && high == 0) || (sign == 1 && high == 0x1FF_FFFF)
}

/// VPN[level] of an address.
pub open spec fn vpn_spec(addr: u64, level: int) -> u64 {
    if level == 0 {
        (addr >> 12u64) & 0x1FF
    } else if level == 1 {
        (addr >> 21u64) & 0x1FF
    } else {
        (addr >> 30u64) & 0x1FF
    }
}

/// A Sv39 virtual address.
#[derive(Debug, Clone, Copy, PartialEq, Eq, Structural)]
pub struct VirtualAddress(u64);

impl View for VirtualAddress {
    type V = u64;

    closed spec fn view(&self) -> u64 {
        self.0
    }
}

impl VirtualAddress {
    /// The address, if it is canonical.
    pub fn new(addr: u64) -> (r: Result<Self, MmuError>)
        ensures
            canonical39(addr) ==> (r matches Ok(va) && va@ == addr),
            !canonical39(addr) ==> r == Err::<Self, MmuError>(MmuError::InvalidVirtualAddress(addr)),
    {
        let sign_bit = (addr >> 38) & 1;
        let high_bits = (addr >> 39) & 0x1FF_FFFF;
        if sign_bit == 0 && high_bits != 0 {
            return Err(MmuError::InvalidVirtualAddress(addr));
        }
        if sign_bit == 1 && high_bits != 0x1FF_FFFF {
            return Err(MmuError::InvalidVirtualAddress(addr));
        }
        proof {
            lemma_sv39_bits(addr, 0, 0, 0, 0);
        }
        Ok(VirtualAddress(addr))
    }

    /// The address, unchecked.
    pub fn new_unchecked(addr: u64) -> (r: Self)
        ensures
            r@ == addr,
    {
        VirtualAddress(addr)
    }

    /// The raw address.
    pub fn bits(&self) -> (r: u64)
        ensures
            r == self@,
    {
        self.0
    }

    /// Bits 11:0.
    pub fn page_offset(&self) -> (r: u64)
        ensures
            r == self@ & 0xFFF,
    {
        self.0 & 0xFFF
    }

    /// VPN[level], for a level below 3.
    pub fn vpn(&self, level: usize) -> (r: u64)
        requires
            level < 3,
        ensures
            r == vpn_spec(self@, level as int),
            r < 512,
    {
        let a = self.0;
        let r = if level == 0 {
            (a >> 12) & 0x1FF
        } else if level == 1 {
            (a >> 21) & 0x1FF
        } else {
            (a >> 30) & 0x1FF
        };
        proof {
            lemma_sv39_bits(a, 0, 0, 0, 0);
        }
        r
    }

    /// VPN[0], VPN[1], VPN[2].
    pub fn vpns(&self) -> (r: [u64; 3])
        ensures
            r@ == seq![vpn_spec(self@, 0), vpn_spec(self@, 1), vpn_spec(self@, 2)],
    {
        let r = [self.vpn(0), self.vpn(1), self.vpn(2)];
        assert(r@ =~= seq![vpn_spec(self@, 0), vpn_spec(self@, 1), vpn_spec(self@, 2)]);
        r
    }

    /// The address with the page offset cleared.
    pub fn page_aligned(&self) -> (r: u64)
        ensures
            r == self@ & !0xFFFu64,
    {
        self.0 & !0xFFFu64
    }

    /// Everything above the page offset.
    pub fn vpn_all(&self) -> (r: u64)
        ensures
            r == self@ >> 12u64,
    {
        self.0 >> 12
    }
}

proof fn lemma_sv39_bits(a: u64, t: u64, p: u64, x: u64, y: u64)
    by (bit_vector)
    ensures
        (a >> 38u64) & 1 < 2,
        (a >> 12u64) & 0x1FF < 512,
        (a >> 21u64) & 0x1FF < 512,
        (a >> 30u64) & 0x1FF < 512,
        t << 12u64 <= 0xFFFF_FFFF_FFFF_F000u64,
        ((p << 12u64) | (a & 0xFFF)) & 0xFFF == a & 0xFFF,
        (((p << 12u64) | (x << 12u64)) | (a & 0xFFF)) & 0xFFF == a & 0xFFF,
        (((p << 12u64) | (y << 21u64) | (x << 12u64)) | (a & 0xFFF)) & 0xFFF == a & 0xFFF,
        p & 0x1FF == 0 && x == (a >> 12u64) & 0x1FF ==> (((p << 12u64) | (x << 12u64)) | (a
            & 0xFFF)) & 0x1F_FFFF == a & 0x1F_FFFF,
        p & 0x3_FFFF == 0 && x == (a >> 12u64) & 0x1FF && y == (a >> 21u64) & 0x1FF ==> (((p
            << 12u64) | (y << 21u64) | (x << 12u64)) | (a & 0xFFF)) & 0x3FFF_FFFF == a & 0x3FFF_FFFF,
{
}

/// The physical address a leaf at `level` maps `va` to.
pub open spec fn build_pa_spec(pte_bits: u64, va: u64, level: int) -> u64 {
    let ppn = pte_bits >> 10u64;
    let off = va & 0xFFF;
    if level == 0 {
        (ppn << 12u64) | off
    } else if level == 1 {
        ((ppn << 12u64) | (vpn_spec(va, 0) << 12u64)) | off
    } else {
        ((ppn << 12u64) | (vpn_spec(va, 1) << 21u64) | (vpn_spec(va, 0) << 12u64)) | off
    }
}

/// A leaf maps each address within its page to the same offset within the
/// physical page: the low 12 bits always pass through unchanged, and for a
/// 2 MiB or 1 GiB page whose physical page number is aligned to that size,
/// the low 21 or 30 bits do.
pub proof fn lemma_build_pa_keeps_offset(pte_bits: u64, va: u64, level: int)
    requires
        0 <= level < 3,
    ensures
        build_pa_spec(pte_bits, va, level) & 0xFFF == va & 0xFFF,
        level == 1 && (pte_bits >> 10u64) & 0x1FF == 0 ==> build_pa_spec(pte_bits, va, level)
            & 0x1F_FFFF == va & 0x1F_FFFF,
        level == 2 && (pte_bits >> 10u64) & 0x3_FFFF == 0 ==> build_pa_spec(pte_bits, va, level)
            & 0x3FFF_FFFF == va & 0x3FFF_FFFF,
{
    lemma_sv39_bits(va, 0, pte_bits >> 10u64, vpn_spec(va, 0), vpn_spec(va, 1));
}

/// The size in bytes of a page mapped at a level: 4 KiB, 2 MiB or 1 GiB.
pub open spec fn page_size_spec(level: int) -> u64 {
    if level == 0 {
        4096
    } else if level == 1 {
        0x20_0000
    } else {
        0x4000_0000
    }
}

/// The address of entry `vpn` of the table at page `table_ppn`.
pub open spec fn pte_address_spec(table_ppn: u64, vpn: u64) -> u64 {
    ((table_ppn << 12u64) + vpn * 8) as u64
}

/// Sv39 page helpers.
#[derive(Debug, Clone, Copy)]
pub struct Sv39;

impl Sv39 {
    /// The address of entry `vpn` (below 512) of the table at page
    /// `table_ppn`.
    pub fn pte_address(table_ppn: u64, vpn: u64) -> (r: u64)
        requires
            vpn < 512,
        ensures
            r == pte_address_spec(table_ppn, vpn),
            r == (table_ppn << 12u64) + vpn * 8,
    {
        let base = table_ppn << 12;
        proof {
            lemma_sv39_bits(0, table_ppn, 0, 0, 0);
        }
        base + vpn * 8
    }

    /// The physical address a leaf at `level` (below 3) maps `vaddr` to.
    pub fn build_physical_address(pte: &PageTableEntry, vaddr: VirtualAddress, level: usize) -> (r: u64)
        requires
            level < 3,
        ensures
            r == build_pa_spec(pte@, vaddr@, level as int),
    {
        let offset = vaddr.page_offset();
        let ppn = pte.ppn();
        if level == 0 {
            (ppn << 12) | offset
        } else if level == 1 {
            let vpn0 = vaddr.vpn(0);
            ((ppn << 12) | (vpn0 << 12)) | offset
        } else {
            let vpn0 = vaddr.vpn(0);
            let vpn1 = vaddr.vpn(1);
            ((ppn << 12) | (vpn1 << 21) | (vpn0 << 12)) | offset
        }
    }

    /// Whether a level maps pages (0, 1 or 2).
    pub fn is_valid_page_size(level: usize) -> (r: bool)
        ensures
            r == (level < 3),
    {
        level < 3
    }

    /// The page size of a level below 3.
    pub fn page_size(level: usize) -> (r: u64)
        requires
            level < 3,
        ensures
            r == page_size_spec(level as int),
    {
        if level == 0 {
            4096
        } else if level == 1 {
            2 * 1024 * 1024
        } else {
            1024 * 1024 * 1024
        }
    }

    /// The page size minus one.
    pub fn page_mask(level: usize) -> (r: u64)
        requires
            level < 3,
        ensures
            r == page_size_spec(level as int) - 1,
    {
        Self::page_size(level) - 1
    }

    /// Whether `addr` is a multiple of the page size.
    pub fn is_aligned(addr: u64, level: usize) -> (r: bool)
        requires
            level < 3,
        ensures
            r == (addr & ((page_size_spec(level as int) - 1) as u64) == 0),
    {
        addr & Self::page_mask(level) == 0
    }

    /// `addr` rounded down to a page boundary.
    pub fn align_down(addr: u64, level: usize) -> (r: u64)
        requires
            level < 3,
        ensures
            r == addr & !((page_size_spec(level as int) - 1) as u64),
    {
        addr & !Self::page_mask(level)
    }

    /// `addr` rounded up to a page boundary; the sum must not overflow.
    pub fn align_up(addr: u64, level: usize) -> (r: u64)
        requires
            level < 3,
            addr + page_size_spec(level as int) - 1 <= u64::MAX,
        ensures
            r == ((addr + page_size_spec(level as int) - 1) as u64) & !((page_size_spec(level as int) - 1) as u64),
    {
        Self::align_down(addr + Self::page_mask(level), level)
    }
}

/// The outcome of a page table walk.
#[derive(Debug, Clone, Copy, PartialEq, Eq, Structural)]
pub enum WalkResult {
    /// A valid leaf was found.
    Success { paddr: u64, pte: PageTableEntry, level: usize, pte_addr: u64 },
    /// An invalid entry, a reserved permission combination, no leaf, or a
    /// denied access.
    PageFault { level: usize },
    /// An entry could not be read.
    AccessFault { level: usize },
}

/// A walk's outcome over entry bits.
pub enum WalkSpec {
    Success { paddr: u64, bits: u64, level: int, pte_addr: u64 },
    PageFault { level: int },
    AccessFault { level: int },
}

/// Whether an entry's R/W/X combination is not the reserved W-without-R.
pub open spec fn valid_perms(bits: u64) -> bool {
    !(has_bit(bits, flags::W) && !has_bit(bits, flags::R))
}

/// The walk from the table at `ppn` at `level` down: read the entry for
/// `va`; an unreadable entry is an access fault; an invalid entry, or a leaf
/// with W but not R, is a page fault; a leaf maps the address; a pointer
/// continues one level down, and a pointer at level 0 is a page fault.
pub open spec fn walk_from(base: u64, ram: Seq<u8>, ppn: u64, va: u64, level: int) -> WalkSpec
    decreases level,
{
    if level < 0 {
        WalkSpec::PageFault { level: 0 }
    } else {
        let pte_addr = pte_address_spec(ppn, vpn_spec(va, level));
        match phys_read_dword(base, ram, pte_addr) {
            Err(_) => WalkSpec::AccessFault { level },
            Ok(v) => if !has_bit(v, flags::V) {
                WalkSpec::PageFault { level }
            } else if v & 0xE != 0 {
                if !valid_perms(v) {
                    WalkSpec::PageFault { level }
                } else {
                    WalkSpec::Success { paddr: build_pa_spec(v, va, level), bits: v, level, pte_addr }
                }
            } else if level == 0 {
                WalkSpec::PageFault { level: 0 }
            } else {
                walk_from(base, ram, v >> 10u64, va, level - 1)
            },
        }
    }
}

/// What any walk from `level` (at most 2) finds: a success is a valid
/// leaf with an allowed R/W/X combination, read at its `pte_addr` at a
/// level no deeper than the start, mapping `va` to the physical address the
/// leaf and the level give; a page fault or an access fault names a level
/// no deeper than the start.
pub proof fn lemma_walk_outcomes(base: u64, ram: Seq<u8>, ppn: u64, va: u64, level: int)
    requires
        level <= 2,
    ensures
        match walk_from(base, ram, ppn, va, level) {
            WalkSpec::Success { paddr, bits, level: l, pte_addr } => {
                &&& 0 <= l <= level
                &&& phys_read_dword(base, ram, pte_addr) == Ok::<u64, crate::memory::MemoryError>(bits)
                &&& has_bit(bits, flags::V)
                &&& bits & 0xE != 0
                &&& valid_perms(bits)
                &&& paddr == build_pa_spec(bits, va, l)
            },
            WalkSpec::PageFault { level: l } => 0 <= l <= 2 && (level < 0 || l <= level),
            WalkSpec::AccessFault { level: l } => 0 <= l <= level,
        },
    decreases level,
{
    if level >= 0 {
        let pte_addr = pte_address_spec(ppn, vpn_spec(va, level));
        if let Ok(v) = phys_read_dword(base, ram, pte_addr) {
            if has_bit(v, flags::V) && v & 0xE == 0 && level != 0 {
                lemma_walk_outcomes(base, ram, v >> 10u64, va, level - 1);
            }
        }
    }
}

/// A walk result agrees with a walk outcome.
pub open spec fn walk_agrees(r: WalkResult, s: WalkSpec) -> bool {
    match (r, s) {
        (
            WalkResult::Success { paddr, pte, level, pte_addr },
            WalkSpec::Success { paddr: p, bits, level: l, pte_addr: a },
        ) => paddr == p && pte@ == bits && level == l && pte_addr == a,
        (WalkResult::PageFault { level }, WalkSpec::PageFault { level: l }) => level == l,
        (WalkResult::AccessFault { level }, WalkSpec::AccessFault { level: l }) => level == l,
        _ => false,
    }
}

/// Whether a leaf's rights allow an access: user accesses need U, and the
/// access needs R, W or X.
pub open spec fn access_allowed(bits: u64, access: AccessType, is_user: bool) -> bool {
    &&& !(is_user && !has_bit(bits, flags::U))
    &&& match access {
        AccessType::Read => has_bit(bits, flags::R),
        AccessType::Write => has_bit(bits, flags::W),
        AccessType::InstructionFetch => has_bit(bits, flags::X),
    }
}

/// The outcome of a walk followed by a permission check.
pub open spec fn walk_checked(s: WalkSpec, access: AccessType, is_user: bool) -> WalkSpec {
    match s {
        WalkSpec::Success { paddr, bits, level, pte_addr } => if access_allowed(bits, access, is_user) {
            s
        } else {
            WalkSpec::PageFault { level }
        },
        _ => s,
    }
}

/// A page table walker over physical memory from a root table.
pub struct PageTableWalker<'a> {
    memory: &'a PhysicalMemory,
    root_ppn: u64,
}

impl<'a> PageTableWalker<'a> {
    /// The memory walked.
    pub closed spec fn memory_spec(&self) -> PhysicalMemory {
        *self.memory
    }

    /// The root table's page number.
    pub closed spec fn root_spec(&self) -> u64 {
        self.root_ppn
    }

    /// A walker of `memory` from the table at page `root_ppn`.
    pub fn new(memory: &'a PhysicalMemory, root_ppn: u64) -> (r: Self)
        ensures
            r.memory_spec() == *memory,
            r.root_spec() == root_ppn,
    {
        PageTableWalker { memory, root_ppn }
    }

    /// Walks the tables for `vaddr` from level 2 down.
    pub fn walk(&self, vaddr: VirtualAddress) -> (r: WalkResult)
        ensures
            walk_agrees(
                r,
                walk_from(
                    self.memory_spec().base_spec(),
                    self.memory_spec().ram_spec(),
                    self.root_spec(),
                    vaddr@,
                    2,
                ),
            ),
    {
        let mut ppn = self.root_ppn;
        let mut l: usize = 2;
        let ghost base = self.memory.base_spec();
        let ghost ram = self.memory.ram_spec();
        loop
            invariant
                l <= 2,
                base == self.memory.base_spec(),
                ram == self.memory.ram_spec(),
                walk_from(base, ram, self.root_ppn, vaddr@, 2) == walk_from(base, ram, ppn, vaddr@, l as int),
            decreases l,
        {
            let vpn = vaddr.vpn(l);
            let pte_addr = Sv39::pte_address(ppn, vpn);
            let pte_val = match self.memory.read_dword(pte_addr) {
                Ok(v) => v,
                Err(_) => {
                    return WalkResult::AccessFault { level: l };
                },
            };
            let pte = PageTableEntry::from_raw(pte_val);
            if !pte.is_valid() {
                return WalkResult::PageFault { level: l };
            }
            if pte.is_leaf() {
                if !pte.has_valid_permissions() {
                    return WalkResult::PageFault { level: l };
                }
                let paddr = Sv39::build_physical_address(&pte, vaddr, l);
                return WalkResult::Success { paddr, pte, level: l, pte_addr };
            }
            if l == 0 {
                return WalkResult::PageFault { level: 0 };
            }
            ppn = pte.ppn();
            l = l - 1;
        }
    }

    /// Walks the tables for `vaddr` and checks that the leaf allows the
    /// access: a user access needs U, and the access needs R, W or X.
    pub fn walk_check_permissions(&self, vaddr: VirtualAddress, access_type: AccessType, is_user: bool) -> (r:
        WalkResult)
        ensures
            walk_agrees(
                r,
                walk_checked(
                    walk_from(
                        self.memory_spec().base_spec(),
                        self.memory_spec().ram_spec(),
                        self.root_spec(),
                        vaddr@,
                        2,
                    ),
                    access_type,
                    is_user,
                ),
            ),
    {
        match self.walk(vaddr) {
            WalkResult::Success { paddr, pte, level, pte_addr } => {
                let perms = pte.permissions();
                if is_user && !perms.user {
                    return WalkResult::PageFault { level };
                }
                let allowed = match access_type {
                    AccessType::Read => perms.read,
                    AccessType::Write => perms.write,
                    AccessType::InstructionFetch => perms.execute,
                };
                if !allowed {
                    return WalkResult::PageFault { level };
                }
                WalkResult::Success { paddr, pte, level, pte_addr }
            },
            other => other,
        }
    }
}

} // verus!
