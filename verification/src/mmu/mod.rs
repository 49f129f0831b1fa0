//! Address translation: the SATP register, Sv39 page table entries and
//! walks, the TLB, and the physical memory the walks read.
pub mod physical;
pub mod pte;
pub mod sv39;
pub mod tlb;
pub mod translator;

pub use physical::{MemoryAttributes, MemoryRegion, MemoryRegionType, PhysicalMemory};
pub use pte::{PagePermissions, PageTableEntry};
pub use sv39::Sv39;
pub use tlb::{Tlb, TlbEntry, TlbStats};
pub use translator::{AddressTranslator, TranslationRequest, TranslationResult};

use vstd::prelude::*;
use translator::{translate_effect, translate_spec};
use tlb::{flushed_in_set, set_of, slot_matches};
use crate::text::{dec_digits, dec_min, hex16, hex_prefix, join_text};

verus! {

/// What SFENCE.VMA does to one TLB.  With an address, the entries for its
/// page (`vaddr >> 12`) in that page's set go, those of every address space
/// or only of the given one (global entries included); with only an address
/// space, its non-global entries go; with neither, every entry goes.  The
/// geometry stays.
pub open spec fn flush_effect(t0: Tlb, t1: Tlb, vaddr: Option<u64>, asid: Option<u16>) -> bool {
    &&& t1.ways_spec() == t0.ways_spec()
    &&& t1.sets_spec() == t0.sets_spec()
    &&& match (vaddr, asid) {
        (Some(va), Some(a)) => t1.entries_spec() == flushed_in_set(
            t0.entries_spec(),
            set_of(va >> 12u64, t0.sets_spec()) * t0.ways_spec(),
            t0.ways_spec() as int,
            |e: TlbEntry| slot_matches(e, va >> 12u64, a),
        ),
        (Some(va), None) => t1.entries_spec() == flushed_in_set(
            t0.entries_spec(),
            set_of(va >> 12u64, t0.sets_spec()) * t0.ways_spec(),
            t0.ways_spec() as int,
            |e: TlbEntry| e.vpn == va >> 12u64,
        ),
        (None, Some(a)) => t1.entries_spec() == Seq::new(
            t0.entries_spec().len(),
            |i: int|
                match t0.entries_spec()[i] {
                    Some(e) => if !e.global && e.asid == a {
                        None
                    } else {
                        Some(e)
                    },
                    None => None,
                },
        ),
        (None, None) => t1.entries_spec() == Seq::new(t0.entries_spec().len(), |i: int| None::<TlbEntry>),
    }
}

/// MMU configuration.
#[derive(Debug, Clone, Copy, PartialEq, Eq, Structural)]
pub struct MmuConfig {
    /// Entries per TLB.
    pub tlb_size: usize,
    /// TLB associativity.
    pub tlb_ways: usize,
    /// Whether Sv48 is enabled.
    pub enable_sv48: bool,
    /// Number of PMP entries.
    pub pmp_entries: usize,
}

impl Default for MmuConfig {
    /// 64-entry, 4-way TLBs, Sv48 enabled, 16 PMP entries.
    fn default() -> (r: Self)
        ensures
            r.tlb_size == 64,
            r.tlb_ways == 4,
            r.enable_sv48,
            r.pmp_entries == 16,
    {
        MmuConfig { tlb_size: 64, tlb_ways: 4, enable_sv48: true, pmp_entries: 16 }
    }
}

/// The kind of a memory access.
#[derive(Debug, Clone, Copy, PartialEq, Eq, Structural)]
pub enum AccessType {
    /// Instruction fetch.
    InstructionFetch,
    /// Data read.
    Read,
    /// Data write.
    Write,
}

/// The translation scheme SATP selects.
#[derive(Debug, Clone, Copy, PartialEq, Eq, Structural)]
pub enum TranslationMode {
    /// No translation.
    Bare,
    /// 39-bit virtual addresses.
    Sv39,
    /// 48-bit virtual addresses.
    Sv48,
    /// 57-bit virtual addresses.
    Sv57,
}

/// The SATP MODE encoding of each scheme.
pub open spec fn mode_bits(m: TranslationMode) -> u64 {
    match m {
        TranslationMode::Bare => 0,
        TranslationMode::Sv39 => 8,
        TranslationMode::Sv48 => 9,
        TranslationMode::Sv57 => 10,
    }
}

/// The scheme a SATP value's MODE field (bits 63:60) selects, if valid.
pub open spec fn mode_of(satp: u64) -> Option<TranslationMode> {
    let m = (satp >> 60u64) & 0xF;
    if m == 0 {
        Some(TranslationMode::Bare)
    } else if m == 8 {
        Some(TranslationMode::Sv39)
    } else if m == 9 {
        Some(TranslationMode::Sv48)
    } else if m == 10 {
        Some(TranslationMode::Sv57)
    } else {
        None
    }
}

/// A scheme's encoding in SATP's MODE field is read back as that scheme,
/// whatever the other fields hold.
pub proof fn lemma_mode_roundtrip(m: TranslationMode, rest: u64)
    requires
        rest < 0x1000_0000_0000_0000,
    ensures
        mode_of((mode_bits(m) << 60u64) | rest) == Some(m),
{
    let b = mode_bits(m);
    assert(b < 16 ==> ((b << 60u64) | rest) >> 60u64 & 0xF == b) by (bit_vector)
        requires
            rest < 0x1000_0000_0000_0000u64,
    ;
}

impl TranslationMode {
    /// The SATP MODE encoding.
    pub fn bits(self) -> (r: u64)
        ensures
            r == mode_bits(self),
    {
        match self {
            TranslationMode::Bare => 0,
            TranslationMode::Sv39 => 8,
            TranslationMode::Sv48 => 9,
            TranslationMode::Sv57 => 10,
        }
    }

    /// The scheme of a SATP value; `None` for an unassigned MODE.
    pub fn from_satp(satp: u64) -> (r: Option<Self>)
        ensures
            r == mode_of(satp),
    {
        let m = (satp >> 60) & 0xF;
        if m == 0 {
            Some(TranslationMode::Bare)
        } else if m == 8 {
            Some(TranslationMode::Sv39)
        } else if m == 9 {
            Some(TranslationMode::Sv48)
        } else if m == 10 {
            Some(TranslationMode::Sv57)
        } else {
            None
        }
    }
}

/// The supervisor address translation and protection register.
#[derive(Debug, Clone, Copy, PartialEq, Eq, Structural)]
pub struct Satp(pub u64);

/// The root page table number field (bits 43:0).
pub open spec fn satp_ppn(satp: u64) -> u64 {
    satp & 0xFFF_FFFF_FFFF
}

/// Whether a SATP value enables paging (Sv39, Sv48 or Sv57).
pub open spec fn paging_enabled_spec(satp: u64) -> bool {
    mode_of(satp) matches Some(m) && m != TranslationMode::Bare
}

impl Satp {
    /// The translation scheme.
    pub fn mode(&self) -> (r: Option<TranslationMode>)
        ensures
            r == mode_of(self.0),
    {
        TranslationMode::from_satp(self.0)
    }

    /// The address-space identifier (bits 59:44).
    pub fn asid(&self) -> (r: u16)
        ensures
            r == ((self.0 >> 44u64) & 0xFFFF) as u16,
    {
        ((self.0 >> 44) & 0xFFFF) as u16
    }

    /// The root page table number (bits 43:0).
    pub fn ppn(&self) -> (r: u64)
        ensures
            r == satp_ppn(self.0),
    {
        self.0 & 0xFFF_FFFF_FFFF
    }

    /// The root page table's address.
    pub fn root_page_table_addr(&self) -> (r: u64)
        ensures
            r == satp_ppn(self.0) << 12u64,
    {
        self.ppn() << 12
    }

    /// Whether paging is enabled (a valid MODE other than Bare).
    pub fn paging_enabled(&self) -> (r: bool)
        ensures
            r == paging_enabled_spec(self.0),
    {
        match self.mode() {
            Some(TranslationMode::Sv39) | Some(TranslationMode::Sv48) | Some(TranslationMode::Sv57) => true,
            _ => false,
        }
    }

    /// Whether MODE is assigned.
    pub fn is_valid(&self) -> (r: bool)
        ensures
            r == mode_of(self.0) is Some,
    {
        self.mode().is_some()
    }
}

/// Why a page fault was raised.
#[derive(Debug, Clone, Copy, PartialEq, Eq, Structural)]
pub enum PageFaultReason {
    /// The page does not allow the access.
    PermissionDenied { access_type: AccessType, vaddr: u64 },
    /// The walk faulted at a level.
    PageTableWalk { level: usize, vaddr: u64 },
    /// A user access to a supervisor page.
    UserAccessToSupervisorPage { vaddr: u64 },
    /// The accessed bit is clear.
    NotAccessed { vaddr: u64 },
    /// A write to a page whose dirty bit is clear.
    NotDirty { vaddr: u64 },
}

/// Why a translation failed.
#[derive(Debug, Clone, Copy, PartialEq, Eq, Structural)]
pub enum MmuError {
    /// The address is not canonical.
    InvalidVirtualAddress(u64),
    /// A page fault.
    PageFault(PageFaultReason),
    /// A page table entry could not be read.
    AccessFault(u64),
    /// A physical memory protection violation.
    PmpViolation(u64),
    /// The scheme is not implemented.
    UnsupportedMode(TranslationMode),
    /// MODE is unassigned.
    InvalidSatpMode(u64),
}

/// The name of an access type.
pub open spec fn access_type_name(a: AccessType) -> Seq<char> {
    match a {
        AccessType::InstructionFetch => "InstructionFetch"@,
        AccessType::Read => "Read"@,
        AccessType::Write => "Write"@,
    }
}

/// The name of a translation scheme.
pub open spec fn mode_name(m: TranslationMode) -> Seq<char> {
    match m {
        TranslationMode::Bare => "Bare"@,
        TranslationMode::Sv39 => "Sv39"@,
        TranslationMode::Sv48 => "Sv48"@,
        TranslationMode::Sv57 => "Sv57"@,
    }
}

/// How a page fault reason reads.
pub open spec fn page_fault_text(p: PageFaultReason) -> Seq<char> {
    match p {
        PageFaultReason::PermissionDenied { access_type, vaddr } => "Permission denied for access "@
            + access_type_name(access_type) + " at address 0x"@ + hex_prefix(vaddr, 16),
        PageFaultReason::PageTableWalk { level, vaddr } => "Page fault at level "@ + dec_digits(
            level as u64,
        ) + " for address 0x"@ + hex_prefix(vaddr, 16),
        PageFaultReason::UserAccessToSupervisorPage { vaddr } =>
            "User mode access to supervisor page at address 0x"@ + hex_prefix(vaddr, 16),
        PageFaultReason::NotAccessed { vaddr } => "Page not accessed (A=0) at address 0x"@
            + hex_prefix(vaddr, 16),
        PageFaultReason::NotDirty { vaddr } => "Page not dirty (D=0) for write at address 0x"@
            + hex_prefix(vaddr, 16),
    }
}

/// How an MMU error reads.
pub open spec fn mmu_error_text(e: MmuError) -> Seq<char> {
    match e {
        MmuError::InvalidVirtualAddress(a) => "Invalid virtual address: 0x"@ + hex_prefix(a, 16),
        MmuError::PageFault(p) => "Page fault: "@ + page_fault_text(p),
        MmuError::AccessFault(a) => "Access fault: address 0x"@ + hex_prefix(a, 16),
        MmuError::PmpViolation(a) => "PMP violation: address 0x"@ + hex_prefix(a, 16),
        MmuError::UnsupportedMode(m) => "Translation mode not supported: "@ + mode_name(m),
        MmuError::InvalidSatpMode(m) => "Invalid SATP mode: "@ + dec_digits(m),
    }
}

fn access_type_str(a: AccessType) -> (r: &'static str)
    ensures
        r@ == access_type_name(a),
{
    match a {
        AccessType::InstructionFetch => "InstructionFetch",
        AccessType::Read => "Read",
        AccessType::Write => "Write",
    }
}

fn mode_str(m: TranslationMode) -> (r: &'static str)
    ensures
        r@ == mode_name(m),
{
    match m {
        TranslationMode::Bare => "Bare",
        TranslationMode::Sv39 => "Sv39",
        TranslationMode::Sv48 => "Sv48",
        TranslationMode::Sv57 => "Sv57",
    }
}

/// `head` followed by the sixteen hexadecimal digits of `v`.
fn with_hex(head: &str, v: u64) -> (r: String)
    ensures
        r@ == head@ + hex_prefix(v, 16),
{
    let h = hex16(v);
    join_text(head, h.as_str())
}

impl PageFaultReason {
    /// The text of this reason.
    pub fn to_display_string(&self) -> (r: String)
        ensures
            r@ == page_fault_text(*self),
    {
        match self {
            PageFaultReason::PermissionDenied { access_type, vaddr } => {
                let t0 = join_text("Permission denied for access ", access_type_str(*access_type));
                let t1 = join_text(t0.as_str(), " at address 0x");
                let h = hex16(*vaddr);
                join_text(t1.as_str(), h.as_str())
            },
            PageFaultReason::PageTableWalk { level, vaddr } => {
                let d = dec_min(*level as u64);
                let t0 = join_text("Page fault at level ", d.as_str());
                let t1 = join_text(t0.as_str(), " for address 0x");
                let h = hex16(*vaddr);
                join_text(t1.as_str(), h.as_str())
            },
            PageFaultReason::UserAccessToSupervisorPage { vaddr } => with_hex(
                "User mode access to supervisor page at address 0x",
                *vaddr,
            ),
            PageFaultReason::NotAccessed { vaddr } => with_hex(
                "Page not accessed (A=0) at address 0x",
                *vaddr,
            ),
            PageFaultReason::NotDirty { vaddr } => with_hex(
                "Page not dirty (D=0) for write at address 0x",
                *vaddr,
            ),
        }
    }
}

impl MmuError {
    /// The text of this error.
    pub fn to_display_string(&self) -> (r: String)
        ensures
            r@ == mmu_error_text(*self),
    {
        match self {
            MmuError::InvalidVirtualAddress(a) => with_hex("Invalid virtual address: 0x", *a),
            MmuError::PageFault(p) => {
                let t = p.to_display_string();
                join_text("Page fault: ", t.as_str())
            },
            MmuError::AccessFault(a) => with_hex("Access fault: address 0x", *a),
            MmuError::PmpViolation(a) => with_hex("PMP violation: address 0x", *a),
            MmuError::UnsupportedMode(m) => join_text("Translation mode not supported: ", mode_str(*m)),
            MmuError::InvalidSatpMode(m) => {
                let d = dec_min(*m);
                join_text("Invalid SATP mode: ", d.as_str())
            },
        }
    }
}

/// The memory management unit: an instruction TLB, a data TLB, and the
/// translator.
pub struct Mmu {
    config: MmuConfig,
    itlb: Tlb,
    dtlb: Tlb,
    translator: AddressTranslator,
}

impl Mmu {
    /// The instruction TLB.
    pub closed spec fn itlb_spec(&self) -> Tlb {
        self.itlb
    }

    /// The data TLB.
    pub closed spec fn dtlb_spec(&self) -> Tlb {
        self.dtlb
    }

    /// Both TLBs are well formed.
    pub closed spec fn wf(&self) -> bool {
        self.itlb.wf() && self.dtlb.wf()
    }

    /// An MMU with two empty TLBs of the configured geometry (at least one
    /// set each).
    pub fn new(config: MmuConfig) -> (r: Self)
        requires
            config.tlb_ways > 0,
            config.tlb_size >= config.tlb_ways,
        ensures
            r.wf(),
            r.itlb_spec().stats_spec() == (TlbStats { accesses: 0, hits: 0, misses: 0, flushes: 0 }),
            r.dtlb_spec().stats_spec() == (TlbStats { accesses: 0, hits: 0, misses: 0, flushes: 0 }),
            r.itlb_spec().entries_spec() == Seq::new(config.tlb_size as nat, |i: int| None::<TlbEntry>),
            r.dtlb_spec().entries_spec() == Seq::new(config.tlb_size as nat, |i: int| None::<TlbEntry>),
    {
        let itlb = Tlb::new(config.tlb_size, config.tlb_ways);
        let dtlb = Tlb::new(config.tlb_size, config.tlb_ways);
        let translator = AddressTranslator::new(config);
        Mmu { config, itlb, dtlb, translator }
    }

    /// Translates a request: without paging the address is unchanged;
    /// otherwise through the instruction TLB for fetches and the data TLB
    /// for loads and stores.
    pub fn translate(&mut self, request: TranslationRequest, memory: &mut PhysicalMemory) -> (r: Result<
        u64,
        MmuError,
    >)
        requires
            old(self).wf(),
        ensures
            final(self).wf(),
            !paging_enabled_spec(request.satp) ==> r == Ok::<u64, MmuError>(request.vaddr),
            paging_enabled_spec(request.satp) ==> r == translate_spec(
                if request.access_type == AccessType::InstructionFetch {
                    old(self).itlb_spec()
                } else {
                    old(self).dtlb_spec()
                },
                *old(memory),
                request,
            ),
            !paging_enabled_spec(request.satp) ==> *final(self) == *old(self) && *final(memory) == *old(
                memory,
            ),
            paging_enabled_spec(request.satp) && request.access_type == AccessType::InstructionFetch
                ==> translate_effect(
                old(self).itlb_spec(),
                final(self).itlb_spec(),
                *old(memory),
                *final(memory),
                request,
            ) && final(self).dtlb_spec() == old(self).dtlb_spec(),
            paging_enabled_spec(request.satp) && request.access_type != AccessType::InstructionFetch
                ==> translate_effect(
                old(self).dtlb_spec(),
                final(self).dtlb_spec(),
                *old(memory),
                *final(memory),
                request,
            ) && final(self).itlb_spec() == old(self).itlb_spec(),
    {
        let satp = Satp(request.satp);
        if !satp.paging_enabled() {
            return Ok(request.vaddr);
        }
        match request.access_type {
            AccessType::InstructionFetch => self.translator.translate_with_tlb(request, &mut self.itlb, memory),
            _ => self.translator.translate_with_tlb(request, &mut self.dtlb, memory),
        }
    }

    /// SFENCE.VMA: flushes matching entries of both TLBs: with an address,
    /// the entries of its page (of that address space, if one is given);
    /// with only an address space, its non-global entries; with neither,
    /// every entry.
    pub fn flush_tlb(&mut self, vaddr: Option<u64>, asid: Option<u16>)
        requires
            old(self).wf(),
        ensures
            final(self).wf(),
            flush_effect(old(self).itlb_spec(), final(self).itlb_spec(), vaddr, asid),
            flush_effect(old(self).dtlb_spec(), final(self).dtlb_spec(), vaddr, asid),
    {
        match (vaddr, asid) {
            (Some(va), Some(a)) => {
                self.itlb.flush_asid_va(a, va >> 12);
                self.dtlb.flush_asid_va(a, va >> 12);
            },
            (Some(va), None) => {
                self.itlb.flush_va(va >> 12);
                self.dtlb.flush_va(va >> 12);
            },
            (None, Some(a)) => {
                self.itlb.flush_asid(a);
                self.dtlb.flush_asid(a);
            },
            (None, None) => {
                self.itlb.flush_all();
                self.dtlb.flush_all();
            },
        }
    }

    /// The statistics of the instruction and data TLBs.
    pub fn tlb_stats(&self) -> (r: (TlbStats, TlbStats))
        ensures
            r.0 == self.itlb_spec().stats_spec(),
            r.1 == self.dtlb_spec().stats_spec(),
    {
        (self.itlb.stats(), self.dtlb.stats())
    }
}

} // verus!
