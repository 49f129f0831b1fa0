use ruscv_sim::mmu::Mmu;
use ruscv_sim::cpu::PrivilegeMode;
use ruscv_sim::mmu::physical::PhysicalMemory;
use ruscv_sim::mmu::pte::{PagePermissions, PageTableEntry};
use ruscv_sim::mmu::tlb::Tlb;
use ruscv_sim::mmu::translator::{AddressTranslator, TranslationRequest};
use ruscv_sim::mmu::{AccessType, MmuConfig, MmuError};
#[test]
fn test_bare_mode() {
    let config = MmuConfig::default();
    let translator = AddressTranslator::new(config);
    let mut tlb = Tlb::new(64, 4);
    let mut memory = PhysicalMemory::new(0x8000_0000, 0x10000);

    let request = TranslationRequest {
        vaddr: 0x8000_0000,
        access_type: AccessType::Read,
        privilege: PrivilegeMode::Machine,
        satp: 0, // Bare mode
        mstatus: 0,
    };

    let result = translator.translate_with_tlb(request, &mut tlb, &mut memory);
    assert_eq!(result.unwrap(), 0x8000_0000);
}

#[test]
fn test_extract_vpn() {
    // VPN[2] = bits 30-38 (0x4000_0000 has bit 30 set)
    assert_eq!(AddressTranslator::extract_vpn(0x0000_4000_0000, 2), 1);
    // VPN[1] = bits 21-29 (0x0020_0000 has bit 21 set)
    assert_eq!(AddressTranslator::extract_vpn(0x0000_0020_0000, 1), 1);
    // VPN[0] = bits 12-20 (0x0000_1000 has bit 12 set)
    assert_eq!(AddressTranslator::extract_vpn(0x0000_0000_1000, 0), 1);

    // Additional test: verify VPN extraction for different addresses
    assert_eq!(AddressTranslator::extract_vpn(0x0000_0040_0000, 1), 2);
    assert_eq!(AddressTranslator::extract_vpn(0x0000_0080_0000, 1), 4);
    assert_eq!(AddressTranslator::extract_vpn(0x0000_0000_2000, 0), 2);
}

#[test]
fn test_page_offset() {
    assert_eq!(AddressTranslator::page_offset(0x1234), 0x234);
    assert_eq!(AddressTranslator::page_offset(0xABCD_EF12), 0xF12);
}

#[test]
fn test_sv39_translation_4kb_page() {
    // Create physical memory with page table setup
    // Need: root (0x8000_0000), level1 (0x8000_1000), level0 (0x8000_2000), data (0x9000_0000)
    let mut memory = PhysicalMemory::new(0x8000_0000, 0x1001_0000);

    // Setup a simple 3-level page table
    let root_ppn = 0x80000; // Root at 0x8000_0000
    let level1_ppn = 0x80001; // Level 1 at 0x8000_1000
    let level0_ppn = 0x80002; // Level 0 at 0x8000_2000
    let data_ppn = 0x90000; // Data at 0x9000_0000

    // Root page table (level 2) - one entry pointing to level 1 table
    let root_pte = PageTableEntry::new_pointer(level1_ppn);
    memory.write_dword(root_ppn << 12, root_pte.bits()).unwrap();

    // Level 1 page table - one entry pointing to level 0 table
    let level1_pte = PageTableEntry::new_pointer(level0_ppn);
    memory
        .write_dword(level1_ppn << 12, level1_pte.bits())
        .unwrap();

    // Level 0 page table - leaf entry for VPN[0] = 1
    // PTE for VPN[0] = 1 is at offset 8 (8 bytes per PTE)
    let level0_pte = PageTableEntry::new_leaf(data_ppn, PagePermissions::rw(), false);
    memory
        .write_dword((level0_ppn << 12) + 8, level0_pte.bits())
        .unwrap();

    // Create SATP value: Sv39 mode (8 << 60), ASID=0, PPN
    let satp = (8u64 << 60) | root_ppn;

    let config = MmuConfig::default();
    let translator = AddressTranslator::new(config);
    let mut tlb = Tlb::new(64, 4);

    // Translate virtual address 0x1000 (VPN[0]=1)
    let request = TranslationRequest {
        vaddr: 0x1000,
        access_type: AccessType::Read,
        privilege: PrivilegeMode::Supervisor,
        satp,
        mstatus: 0,
    };

    let result = translator.translate_with_tlb(request, &mut tlb, &mut memory);
    assert!(result.is_ok(), "Translation failed: {:?}", result.err());

    // Expected: (data_ppn << 12) | offset = 0x9000_0000 | 0x0 = 0x9000_0000
    assert_eq!(result.unwrap(), 0x9000_0000);

    // Check TLB was populated
    assert_eq!(tlb.stats().hits, 0);
    assert_eq!(tlb.stats().misses, 1);

    // Second access should hit TLB
    let result2 = translator.translate_with_tlb(request, &mut tlb, &mut memory);
    assert_eq!(result2.unwrap(), 0x9000_0000);
    assert_eq!(tlb.stats().hits, 1);
}

#[test]
fn test_sv39_page_fault() {
    // Create memory large enough for root table
    let mut memory = PhysicalMemory::new(0x8000_0000, 0x20000);

    // Create SATP with root PPN pointing to memory with invalid PTE
    // PPN = 0x80000 -> address 0x8000_0000 (all zeros = invalid PTEs)
    let satp = (8u64 << 60) | 0x80000;

    let config = MmuConfig::default();
    let translator = AddressTranslator::new(config);
    let mut tlb = Tlb::new(64, 4);

    // Try to translate - should fail since page table is empty
    let request = TranslationRequest {
        vaddr: 0x1000,
        access_type: AccessType::Read,
        privilege: PrivilegeMode::Supervisor,
        satp,
        mstatus: 0,
    };

    let result = translator.translate_with_tlb(request, &mut tlb, &mut memory);
    assert!(result.is_err());
    assert!(matches!(result.unwrap_err(), MmuError::PageFault(_)));
}

#[test]
fn test_sv39_permission_check() {
    // Need space for root (0x8000_0000) and data (0x9000_0000)
    let mut memory = PhysicalMemory::new(0x8000_0000, 0x1001_0000);

    // Setup simple page table with read-only page (gigapage)
    let root_ppn = 0x80000; // Root at 0x8000_0000
    let data_ppn = 0x90000; // Data at 0x9000_0000

    // Leaf entry at root level (gigapage) - read/execute only
    let root_pte = PageTableEntry::new_leaf(data_ppn, PagePermissions::rx(), false);
    memory.write_dword(root_ppn << 12, root_pte.bits()).unwrap();

    let satp = (8u64 << 60) | root_ppn;
    let config = MmuConfig::default();
    let translator = AddressTranslator::new(config);
    let mut tlb = Tlb::new(64, 4);

    // Write access should fail
    let write_request = TranslationRequest {
        vaddr: 0x1000,
        access_type: AccessType::Write,
        privilege: PrivilegeMode::Supervisor,
        satp,
        mstatus: 0,
    };

    let result = translator.translate_with_tlb(write_request, &mut tlb, &mut memory);
    assert!(result.is_err());
    assert!(matches!(result.unwrap_err(), MmuError::PageFault(_)));

    // Read access should succeed
    let read_request = TranslationRequest {
        vaddr: 0x1000,
        access_type: AccessType::Read,
        privilege: PrivilegeMode::Supervisor,
        satp,
        mstatus: 0,
    };

    let result = translator.translate_with_tlb(read_request, &mut tlb, &mut memory);
    assert!(result.is_ok());
}

#[test]
fn superpage_tlb_hit_gives_the_walked_address() {
    let mut memory = PhysicalMemory::new(0x8000_0000, 0x10000);
    // A 1 GiB leaf at the root mapping virtual 0 to physical 0x9000_0000.
    let leaf = PageTableEntry::new_leaf(0x90000, PagePermissions::rx(), false);
    memory.write_dword(0x8000_0000, leaf.bits()).unwrap();
    let satp = (8u64 << 60) | 0x80000;
    let mut tlb = Tlb::new(64, 4);
    let translator = AddressTranslator::new(MmuConfig::default());
    let request = TranslationRequest {
        vaddr: 0x1000,
        access_type: AccessType::Read,
        privilege: PrivilegeMode::Supervisor,
        satp,
        mstatus: 0,
    };
    let walked = translator.translate_with_tlb(request, &mut tlb, &mut memory);
    assert_eq!(walked, Ok(0x9000_1000));
    assert_eq!(tlb.stats().misses, 1);
    let hit = translator.translate_with_tlb(request, &mut tlb, &mut memory);
    assert_eq!(hit, Ok(0x9000_1000));
    assert_eq!(tlb.stats().hits, 1);
}

#[test]
fn flush_of_an_address_drops_the_entry_of_its_page() {
    let mut memory = PhysicalMemory::new(0x8000_0000, 0x10000);
    let root_ppn = 0x80000u64;
    let level1_ppn = 0x80001u64;
    let level0_ppn = 0x80002u64;
    memory
        .write_dword(root_ppn << 12, PageTableEntry::new_pointer(level1_ppn).bits())
        .unwrap();
    memory
        .write_dword(level1_ppn << 12, PageTableEntry::new_pointer(level0_ppn).bits())
        .unwrap();
    let leaf = PageTableEntry::new_leaf(0x90000, PagePermissions::rw(), false);
    memory.write_dword((level0_ppn << 12) + 8, leaf.bits()).unwrap();
    let satp = (8u64 << 60) | root_ppn;
    let mut mmu = Mmu::new(MmuConfig::default());
    let request = TranslationRequest {
        vaddr: 0x1000,
        access_type: AccessType::Read,
        privilege: PrivilegeMode::Supervisor,
        satp,
        mstatus: 0,
    };
    assert_eq!(mmu.translate(request, &mut memory), Ok(0x9000_0000));
    assert_eq!(mmu.translate(request, &mut memory), Ok(0x9000_0000));
    let before = mmu.tlb_stats().1;
    assert_eq!(before.hits, 1);
    mmu.flush_tlb(Some(0x1000), None);
    assert_eq!(mmu.translate(request, &mut memory), Ok(0x9000_0000));
    let after = mmu.tlb_stats().1;
    assert_eq!(after.misses, before.misses + 1);
    assert_eq!(after.hits, before.hits);
}
