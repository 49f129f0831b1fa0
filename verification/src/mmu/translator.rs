//! Virtual-to-physical translation through a TLB and Sv39 page table walks.
use vstd::prelude::*;
use crate::cpu::PrivilegeMode;
use super::physical::{PhysicalMemory, phys_read_dword};
use super::pte::{PageTableEntry, has_bit, flags};
use super::sv39::{
    PageTableWalker, VirtualAddress, WalkResult, WalkSpec, canonical39, walk_agrees, walk_checked,
    walk_from,
};
use super::tlb::{Tlb, TlbEntry, insert_effect, lookup_effect, set_of};
use super::{
    AccessType, MmuConfig, MmuError, PageFaultReason, Satp, TranslationMode, mode_of, satp_ppn,
};
use crate::memory::store_le;

verus! {

/// One translation request.
#[derive(Debug, Clone, Copy, PartialEq, Eq, Structural)]
pub struct TranslationRequest {
    /// The virtual address.
    pub vaddr: u64,
    /// The kind of access.
    pub access_type: AccessType,
    /// The privilege of the access.
    pub privilege: PrivilegeMode,
    /// The SATP value.
    pub satp: u64,
    /// The MSTATUS value.
    pub mstatus: u64,
}

/// A translation and the entry it came from.
#[derive(Debug, Clone, Copy, PartialEq, Eq, Structural)]
pub struct TranslationResult {
    /// The physical address.
    pub paddr: u64,
    /// The address of the leaf entry, if a walk was made.
    pub pte_addr: Option<u64>,
    /// The leaf entry, if a walk was made.
    pub pte_value: Option<u64>,
}

/// The ASID field of a SATP value.
pub open spec fn satp_asid(satp: u64) -> u16 {
    ((satp >> 44u64) & 0xFFFF) as u16
}

/// Whether a cached entry allows an access: user accesses need U, and the
/// access needs R, W or X.
pub open spec fn tlb_allows(e: TlbEntry, access: AccessType, privilege: PrivilegeMode) -> bool {
    &&& !(privilege == PrivilegeMode::User && !e.user)
    &&& match access {
        AccessType::Read => e.read,
        AccessType::Write => e.write,
        AccessType::InstructionFetch => e.execute,
    }
}

/// A leaf's bits once the walk has marked it accessed, and dirty for a write.
pub open spec fn ad_bits(bits: u64, access: AccessType) -> u64 {
    if access == AccessType::Write {
        (bits | flags::A) | flags::D
    } else {
        bits | flags::A
    }
}

/// The cache entry for the 4 KiB page `vpn`, which the walk mapped to the
/// physical address `paddr` through leaf bits `bits`: it caches the
/// physical page of `paddr` (for a superpage leaf, the 4 KiB frame inside
/// it) and the leaf's rights.
pub open spec fn entry_of(vpn: u64, paddr: u64, bits: u64, asid: u16) -> TlbEntry {
    TlbEntry {
        vpn,
        ppn: paddr >> 12u64,
        asid,
        global: has_bit(bits, flags::G),
        read: has_bit(bits, flags::R),
        write: has_bit(bits, flags::W),
        execute: has_bit(bits, flags::X),
        user: has_bit(bits, flags::U),
        accessed: has_bit(bits, flags::A),
        dirty: has_bit(bits, flags::D),
    }
}

/// The outcome of a walk with permission check for a request.
pub open spec fn request_walk(mem: PhysicalMemory, root: u64, vaddr: u64, access: AccessType, privilege: PrivilegeMode) -> WalkSpec {
    walk_checked(
        walk_from(mem.base_spec(), mem.ram_spec(), root, vaddr, 2),
        access,
        privilege == PrivilegeMode::User,
    )
}

/// The result of a walk: the address on success, a page-table-walk page
/// fault with the level, or an access fault with the virtual address.
pub open spec fn walk_result_of(s: WalkSpec, vaddr: u64) -> Result<u64, MmuError> {
    match s {
        WalkSpec::Success { paddr, .. } => Ok(paddr),
        WalkSpec::PageFault { level } => Err(
            MmuError::PageFault(PageFaultReason::PageTableWalk { level: level as usize, vaddr }),
        ),
        WalkSpec::AccessFault { .. } => Err(MmuError::AccessFault(vaddr)),
    }
}

/// The memory after a successful walk has set A (and D for a write) in the
/// leaf, when that changes it.
pub open spec fn ad_updated(m0: PhysicalMemory, m1: PhysicalMemory, s: WalkSpec, access: AccessType) -> bool {
    &&& m1.base_spec() == m0.base_spec()
    &&& m1.regions_spec() == m0.regions_spec()
    &&& match s {
        WalkSpec::Success { bits, pte_addr, .. } => if ad_bits(bits, access) != bits {
            m1.ram_spec() == store_le(m0.ram_spec(), pte_addr - m0.base_spec(), 8, ad_bits(bits, access))
        } else {
            m1.ram_spec() == m0.ram_spec()
        },
        _ => m1.ram_spec() == m0.ram_spec(),
    }
}

/// Walks with a permission check, then marks the leaf accessed (and dirty
/// for a write), writing it back when that changes it.
pub fn walk_check_permissions_and_update_ad(
    memory: &mut PhysicalMemory,
    root_ppn: u64,
    vaddr: VirtualAddress,
    access_type: AccessType,
    is_user: bool,
) -> (r: WalkResult)
    ensures
        ({
            let s = walk_checked(
                walk_from(old(memory).base_spec(), old(memory).ram_spec(), root_ppn, vaddr@, 2),
                access_type,
                is_user,
            );
            &&& ad_updated(*old(memory), *final(memory), s, access_type)
            &&& match s {
                WalkSpec::Success { paddr, bits, level, pte_addr } => r matches WalkResult::Success {
                    paddr: p,
                    pte,
                    level: l,
                    pte_addr: a,
                } && p == paddr && pte@ == ad_bits(bits, access_type) && l == level && a == pte_addr,
                _ => walk_agrees(r, s),
            }
        }),
{
    let res = {
        let walker = PageTableWalker::new(memory, root_ppn);
        walker.walk_check_permissions(vaddr, access_type, is_user)
    };
    proof {
        lemma_walk_success_readable(memory.base_spec(), memory.ram_spec(), root_ppn, vaddr@, 2);
    }
    match res {
        WalkResult::Success { paddr, pte, level, pte_addr } => {
            let mut updated = pte;
            updated.set_accessed();
            if let AccessType::Write = access_type {
                updated.set_dirty();
            }
            if updated.bits() != pte.bits() {
                match memory.write_dword(pte_addr, updated.bits()) {
                    Ok(()) => {},
                    Err(_) => {
                        return WalkResult::AccessFault { level };
                    },
                }
            }
            WalkResult::Success { paddr, pte: updated, level, pte_addr }
        },
        other => other,
    }
}

/// A successful walk read its leaf from an aligned address inside RAM.
proof fn lemma_walk_success_readable(base: u64, ram: Seq<u8>, ppn: u64, va: u64, level: int)
    ensures
        walk_from(base, ram, ppn, va, level) matches WalkSpec::Success { bits, pte_addr, .. }
            ==> phys_read_dword(base, ram, pte_addr) == Ok::<u64, crate::memory::MemoryError>(bits),
    decreases level,
{
    if level >= 0 {
        let pte_addr = super::sv39::pte_address_spec(ppn, super::sv39::vpn_spec(va, level));
        if let Ok(v) = phys_read_dword(base, ram, pte_addr) {
            if has_bit(v, flags::V) && v & 0xE == 0 && level != 0 {
                lemma_walk_success_readable(base, ram, v >> 10u64, va, level - 1);
            }
        }
    }
}

proof fn lemma_frame_and_offset(p: u64, va: u64)
    by (bit_vector)
    requires
        p & 0xFFF == va & 0xFFF,
    ensures
        ((p >> 12u64) << 12u64) | (va & 0xFFF) == p,
{
}

proof fn lemma_pa_offset(ppn: u64, a: u64, b: u64, va: u64)
    by (bit_vector)
    ensures
        ((ppn << 12u64) | (va & 0xFFF)) & 0xFFF == va & 0xFFF,
        (((ppn << 12u64) | (a << 12u64)) | (va & 0xFFF)) & 0xFFF == va & 0xFFF,
        (((ppn << 12u64) | (b << 21u64) | (a << 12u64)) | (va & 0xFFF)) & 0xFFF == va & 0xFFF,
{
}

/// A successful walk keeps the page offset of the virtual address.
proof fn lemma_walk_keeps_offset(base: u64, ram: Seq<u8>, ppn: u64, va: u64, level: int)
    ensures
        walk_from(base, ram, ppn, va, level) matches WalkSpec::Success { paddr, .. } ==> paddr & 0xFFF
            == va & 0xFFF,
    decreases level,
{
    if level >= 0 {
        let pte_addr = super::sv39::pte_address_spec(ppn, super::sv39::vpn_spec(va, level));
        if let Ok(v) = phys_read_dword(base, ram, pte_addr) {
            lemma_pa_offset(v >> 10u64, super::sv39::vpn_spec(va, 0), super::sv39::vpn_spec(va, 1), va);
            if has_bit(v, flags::V) && v & 0xE == 0 && level != 0 {
                lemma_walk_keeps_offset(base, ram, v >> 10u64, va, level - 1);
            }
        }
    }
}

/// The entry that a successful walk caches for a page gives back, on a hit
/// for that page, the physical address the walk gave (also inside a
/// superpage).
pub proof fn lemma_hit_gives_walk_address(
    mem: PhysicalMemory,
    root: u64,
    vaddr: u64,
    access: AccessType,
    privilege: PrivilegeMode,
    asid: u16,
)
    requires
        request_walk(mem, root, vaddr, access, privilege) is Success,
    ensures
        ({
            let s = request_walk(mem, root, vaddr, access, privilege);
            let e = entry_of(vaddr >> 12u64, s->paddr, ad_bits(s->bits, access), asid);
            (e.ppn << 12u64) | (vaddr & 0xFFF) == s->paddr
        }),
{
    lemma_walk_keeps_offset(mem.base_spec(), mem.ram_spec(), root, vaddr, 2);
    let s = request_walk(mem, root, vaddr, access, privilege);
    lemma_frame_and_offset(s->paddr, vaddr);
}

/// The result a translation through a TLB gives.  Without paging the
/// address is unchanged; Sv48 and Sv57 are unsupported; an unassigned MODE
/// is invalid.  Under Sv39 a TLB hit gives the cached page (or a permission
/// fault), and a miss walks the tables: a non-canonical address is
/// invalid, otherwise the walk's result.
pub open spec fn translate_spec(tlb: Tlb, mem: PhysicalMemory, request: TranslationRequest) -> Result<u64, MmuError> {
    let vaddr = request.vaddr;
    match mode_of(request.satp) {
        Some(TranslationMode::Bare) => Ok(vaddr),
        Some(TranslationMode::Sv48) => Err(MmuError::UnsupportedMode(TranslationMode::Sv48)),
        Some(TranslationMode::Sv57) => Err(MmuError::UnsupportedMode(TranslationMode::Sv57)),
        None => Err(MmuError::InvalidSatpMode(request.satp)),
        Some(TranslationMode::Sv39) => match tlb.lookup_spec(vaddr >> 12u64, satp_asid(request.satp)) {
            Some((w, e)) => if !tlb_allows(e, request.access_type, request.privilege) {
                Err(
                    MmuError::PageFault(
                        PageFaultReason::PermissionDenied { access_type: request.access_type, vaddr },
                    ),
                )
            } else {
                Ok((e.ppn << 12u64) | (vaddr & 0xFFF))
            },
            None => if !canonical39(vaddr) {
                Err(MmuError::InvalidVirtualAddress(vaddr))
            } else {
                walk_result_of(
                    request_walk(mem, satp_ppn(request.satp), vaddr, request.access_type, request.privilege),
                    vaddr,
                )
            },
        },
    }
}

/// What a translation through a TLB does to the TLB and the memory.  Under
/// Sv39 the page is looked up first; on a miss with a canonical address the
/// tables are walked, the leaf is marked accessed (and dirty for a write)
/// in memory, and on success the marked leaf is cached.  Other modes touch
/// neither.
pub open spec fn translate_effect(
    t0: Tlb,
    t1: Tlb,
    m0: PhysicalMemory,
    m1: PhysicalMemory,
    request: TranslationRequest,
) -> bool {
    let vaddr = request.vaddr;
    let vpn = vaddr >> 12u64;
    let asid = satp_asid(request.satp);
    match mode_of(request.satp) {
        Some(TranslationMode::Sv39) => match t0.lookup_spec(vpn, asid) {
            Some(_) => lookup_effect(t0, t1, vpn, asid) && m1 == m0,
            None => exists|mid: Tlb|
                #[trigger] lookup_effect(t0, mid, vpn, asid) && if !canonical39(vaddr) {
                    t1 == mid && m1 == m0
                } else {
                    let s = request_walk(
                        m0,
                        satp_ppn(request.satp),
                        vaddr,
                        request.access_type,
                        request.privilege,
                    );
                    &&& ad_updated(m0, m1, s, request.access_type)
                    &&& match s {
                        WalkSpec::Success { paddr, bits, .. } => insert_effect(
                            mid,
                            t1,
                            vpn,
                            entry_of(vpn, paddr, ad_bits(bits, request.access_type), asid),
                        ),
                        _ => t1 == mid,
                    }
                },
        },
        _ => t1 == t0 && m1 == m0,
    }
}

/// The address translator.
#[derive(Debug, Clone, Copy)]
pub struct AddressTranslator {
    config: MmuConfig,
}

impl AddressTranslator {
    /// The configuration the translator was made with.
    pub closed spec fn config(&self) -> MmuConfig {
        self.config
    }

    /// A translator with the given configuration.
    pub fn new(config: MmuConfig) -> (r: Self)
        ensures
            r.config() == config,
    {
        AddressTranslator { config }
    }

    /// Translates a request, consulting and filling `tlb` and walking
    /// `memory` on a miss.
    pub fn translate_with_tlb(&self, request: TranslationRequest, tlb: &mut Tlb, memory: &mut PhysicalMemory) -> (r:
        Result<u64, MmuError>)
        requires
            old(tlb).wf(),
        ensures
            final(tlb).wf(),
            r == translate_spec(*old(tlb), *old(memory), request),
            translate_effect(*old(tlb), *final(tlb), *old(memory), *final(memory), request),
    {
        let satp = Satp(request.satp);
        match satp.mode() {
            Some(TranslationMode::Bare) => Ok(request.vaddr),
            Some(TranslationMode::Sv39) => self.translate_sv39_with_tlb(request, satp, tlb, memory),
            Some(TranslationMode::Sv48) => Err(MmuError::UnsupportedMode(TranslationMode::Sv48)),
            Some(TranslationMode::Sv57) => Err(MmuError::UnsupportedMode(TranslationMode::Sv57)),
            None => Err(MmuError::InvalidSatpMode(satp.0)),
        }
    }

    fn translate_sv39_with_tlb(&self, request: TranslationRequest, satp: Satp, tlb: &mut Tlb, memory: &mut PhysicalMemory) -> (r:
        Result<u64, MmuError>)
        requires
            old(tlb).wf(),
            satp.0 == request.satp,
            mode_of(request.satp) == Some(TranslationMode::Sv39),
        ensures
            final(tlb).wf(),
            r == translate_spec(*old(tlb), *old(memory), request),
            translate_effect(*old(tlb), *final(tlb), *old(memory), *final(memory), request),
    {
        let vaddr = request.vaddr;
        let vpn = vaddr >> 12;
        let looked = tlb.lookup(vpn, satp.asid());
        let ghost mid = *tlb;
        if let Some(entry) = looked {
            if !self.check_tlb_permissions(&entry, request.access_type, request.privilege) {
                return Err(
                    MmuError::PageFault(
                        PageFaultReason::PermissionDenied { access_type: request.access_type, vaddr },
                    ),
                );
            }
            return Ok((entry.ppn << 12) | (vaddr & 0xFFF));
        }
        let va = match VirtualAddress::new(vaddr) {
            Ok(va) => va,
            Err(e) => {
                assert(lookup_effect(*old(tlb), mid, vpn, satp_asid(request.satp)));
                return Err(e);
            },
        };
        let is_user = match request.privilege {
            PrivilegeMode::User => true,
            _ => false,
        };
        let res = walk_check_permissions_and_update_ad(memory, satp.ppn(), va, request.access_type, is_user);
        match res {
            WalkResult::Success { paddr, pte, level, pte_addr: _ } => {
                let tlb_entry = self.create_tlb_entry(vpn, paddr, &pte, satp.asid());
                tlb.insert(vpn, tlb_entry);
                assert(lookup_effect(*old(tlb), mid, vpn, satp_asid(request.satp)));
                Ok(paddr)
            },
            WalkResult::PageFault { level } => {
                assert(lookup_effect(*old(tlb), mid, vpn, satp_asid(request.satp)));
                Err(MmuError::PageFault(PageFaultReason::PageTableWalk { level, vaddr }))
            },
            WalkResult::AccessFault { level: _ } => {
                assert(lookup_effect(*old(tlb), mid, vpn, satp_asid(request.satp)));
                Err(MmuError::AccessFault(vaddr))
            },
        }
    }

    fn check_tlb_permissions(&self, entry: &TlbEntry, access_type: AccessType, privilege: PrivilegeMode) -> (r:
        bool)
        ensures
            r == tlb_allows(*entry, access_type, privilege),
    {
        let is_user = match privilege {
            PrivilegeMode::User => true,
            _ => false,
        };
        if is_user && !entry.user {
            return false;
        }
        match access_type {
            AccessType::Read => entry.read,
            AccessType::Write => entry.write,
            AccessType::InstructionFetch => entry.execute,
        }
    }

    fn create_tlb_entry(&self, vpn: u64, paddr: u64, pte: &PageTableEntry, asid: u16) -> (r: TlbEntry)
        ensures
            r == entry_of(vpn, paddr, pte@, asid),
    {
        let ppn = paddr >> 12;
        let perms = pte.permissions();
        TlbEntry {
            vpn,
            ppn,
            asid,
            global: pte.is_global(),
            read: perms.read,
            write: perms.write,
            execute: perms.execute,
            user: perms.user,
            accessed: pte.is_accessed(),
            dirty: pte.is_dirty(),
        }
    }

    /// Checks a request's mode without walking: Bare and Sv39 give the
    /// address back (Sv39 after the canonical check).
    pub fn translate(&self, request: TranslationRequest, _tlb: &Tlb) -> (r: Result<u64, MmuError>)
        ensures
            r == (match mode_of(request.satp) {
                Some(TranslationMode::Bare) => Ok(request.vaddr),
                Some(TranslationMode::Sv39) => if canonical39(request.vaddr) {
                    Ok(request.vaddr)
                } else {
                    Err(MmuError::InvalidVirtualAddress(request.vaddr))
                },
                Some(TranslationMode::Sv48) => Err(MmuError::UnsupportedMode(TranslationMode::Sv48)),
                Some(TranslationMode::Sv57) => Err(MmuError::UnsupportedMode(TranslationMode::Sv57)),
                None => Err(MmuError::InvalidSatpMode(request.satp)),
            }),
    {
        let satp = Satp(request.satp);
        match satp.mode() {
            Some(TranslationMode::Bare) => Ok(request.vaddr),
            Some(TranslationMode::Sv39) => {
                match VirtualAddress::new(request.vaddr) {
                    Ok(_) => Ok(request.vaddr),
                    Err(e) => Err(e),
                }
            },
            Some(TranslationMode::Sv48) => Err(MmuError::UnsupportedMode(TranslationMode::Sv48)),
            Some(TranslationMode::Sv57) => Err(MmuError::UnsupportedMode(TranslationMode::Sv57)),
            None => Err(MmuError::InvalidSatpMode(satp.0)),
        }
    }

    /// Walks the Sv39 tables for `vaddr` without a TLB.
    pub fn translate_sv39_walk(
        &self,
        vaddr: u64,
        satp: u64,
        access_type: AccessType,
        privilege: PrivilegeMode,
        memory: &mut PhysicalMemory,
    ) -> (r: Result<u64, MmuError>)
        ensures
            mode_of(satp) != Some(TranslationMode::Sv39) ==> r == Err::<u64, MmuError>(
                MmuError::UnsupportedMode(TranslationMode::Sv39),
            ),
            mode_of(satp) == Some(TranslationMode::Sv39) && !canonical39(vaddr) ==> r == Err::<u64, MmuError>(
                MmuError::InvalidVirtualAddress(vaddr),
            ),
            mode_of(satp) == Some(TranslationMode::Sv39) && canonical39(vaddr) ==> r == walk_result_of(
                request_walk(*old(memory), satp_ppn(satp), vaddr, access_type, privilege),
                vaddr,
            ),
    {
        let s = Satp(satp);
        match s.mode() {
            Some(TranslationMode::Sv39) => {},
            _ => return Err(MmuError::UnsupportedMode(TranslationMode::Sv39)),
        }
        let va = match VirtualAddress::new(vaddr) {
            Ok(va) => va,
            Err(e) => return Err(e),
        };
        let is_user = match privilege {
            PrivilegeMode::User => true,
            _ => false,
        };
        match walk_check_permissions_and_update_ad(memory, s.ppn(), va, access_type, is_user) {
            WalkResult::Success { paddr, .. } => Ok(paddr),
            WalkResult::PageFault { level } => Err(
                MmuError::PageFault(PageFaultReason::PageTableWalk { level, vaddr }),
            ),
            WalkResult::AccessFault { .. } => Err(MmuError::AccessFault(vaddr)),
        }
    }

    /// VPN[level] of an address (bits 12 + 9 * level up); the shift must
    /// stay below 64.
    pub fn extract_vpn(vaddr: u64, level: usize) -> (r: u64)
        requires
            level < 6,
        ensures
            r == (vaddr >> ((12 + 9 * level) as u64)) & 0x1FF,
    {
        let shift: u32 = 12 + (level as u32) * 9;
        (vaddr >> shift) & 0x1FF
    }

    /// Bits 11:0 of an address.
    pub fn page_offset(vaddr: u64) -> (r: u64)
        ensures
            r == vaddr & 0xFFF,
    {
        vaddr & 0xFFF
    }
}

} // verus!
