use ruscv_sim::mmu::physical::PhysicalMemory;
use ruscv_sim::mmu::pte::{PagePermissions, PageTableEntry};
use ruscv_sim::mmu::sv39::{PageTableWalker, Sv39, VirtualAddress, WalkResult};
use ruscv_sim::mmu::AccessType;
#[test]
fn test_virtual_address() {
    let va = VirtualAddress::new(0x1000).unwrap();
    assert_eq!(va.page_offset(), 0);
    assert_eq!(va.vpn(0), 1);

    let va = VirtualAddress::new(0x1234).unwrap();
    assert_eq!(va.page_offset(), 0x234);
}

#[test]
fn test_invalid_virtual_address() {
    // Invalid sign extension - bits [63:39] not all 0 or all 1
    let result = VirtualAddress::new(0x0000_0080_0000_0000);
    assert!(result.is_err());

    // Valid: all zeros in high bits
    assert!(VirtualAddress::new(0x0000_0000_0000_0000).is_ok());
    // Valid: all ones in high bits (sign extended negative)
    assert!(VirtualAddress::new(0xFFFF_FFFF_FFFF_FFFF).is_ok());
}

#[test]
fn test_vpn_extraction() {
    // 0x0040_0000 = VPN2=0, VPN1=2, VPN0=0
    let va = VirtualAddress::new(0x0040_0000).unwrap();
    assert_eq!(va.vpn(2), 0);
    assert_eq!(va.vpn(1), 2);
    assert_eq!(va.vpn(0), 0);

    // Check all VPNs
    let vpns = va.vpns();
    assert_eq!(vpns, [0, 2, 0]);
}

#[test]
fn test_pte_address() {
    // Root PPN = 0x80000, VPN2 = 0 for address 0x0020_0000
    let root_ppn = 0x80000;
    let va = VirtualAddress::new(0x0020_0000).unwrap(); // VPN2=0, VPN1=1
    let pte_addr = Sv39::pte_address(root_ppn, va.vpn(2));

    // Expected: (0x80000 << 12) + (0 * 8) = 0x8000_0000
    assert_eq!(pte_addr, 0x80000 << 12);

    // Test with address that has VPN2 = 1 (0x4000_0000 and above)
    let va2 = VirtualAddress::new(0x4000_0000).unwrap(); // VPN2=1
    let pte_addr2 = Sv39::pte_address(root_ppn, va2.vpn(2));
    // Expected: (0x80000 << 12) + (1 * 8) = 0x8000_0008
    assert_eq!(pte_addr2, (0x80000 << 12) + 8);
}

#[test]
fn test_build_physical_address_4kb() {
    // Level 0 (4KB page)
    let pte = PageTableEntry::new_leaf(0x12345, PagePermissions::rwx(), false);
    let va = VirtualAddress::new(0xABC).unwrap();
    let paddr = Sv39::build_physical_address(&pte, va, 0);

    // Expected: (0x12345 << 12) | 0xABC
    assert_eq!(paddr, (0x12345 << 12) | 0xABC);
}

#[test]
fn test_build_physical_address_2mb() {
    // Level 1 (2MB page)
    let pte = PageTableEntry::new_leaf(0x100, PagePermissions::rwx(), false);
    // VA with VPN0=5, offset=0xABC
    let va = VirtualAddress::new((5 << 12) | 0xABC).unwrap();
    let paddr = Sv39::build_physical_address(&pte, va, 1);

    // For 2MB page: PPN full + VPN0 as part of offset
    // Expected: (0x100 << 12) | (5 << 12) | 0xABC = (0x100 << 12) | (5 << 12) | 0xABC
    assert_eq!(paddr, (0x100 << 12) | (5 << 12) | 0xABC);
}

#[test]
fn test_build_physical_address_1gb() {
    // Level 2 (1GB page)
    let pte = PageTableEntry::new_leaf(0x10, PagePermissions::rwx(), false);
    // VA with VPN1=3, VPN0=5, offset=0xABC
    let va = VirtualAddress::new((3 << 21) | (5 << 12) | 0xABC).unwrap();
    let paddr = Sv39::build_physical_address(&pte, va, 2);

    // For 1GB page: PPN full + VPN1 + VPN0 as part of offset
    assert_eq!(paddr, (0x10 << 12) | (3 << 21) | (5 << 12) | 0xABC);
}

#[test]
fn test_page_sizes() {
    assert_eq!(Sv39::page_size(0), 4096);
    assert_eq!(Sv39::page_size(1), 2 * 1024 * 1024);
    assert_eq!(Sv39::page_size(2), 1024 * 1024 * 1024);
}

#[test]
fn test_page_alignment() {
    assert!(Sv39::is_aligned(0x1000, 0));
    assert!(!Sv39::is_aligned(0x1001, 0));

    assert!(Sv39::is_aligned(0x20_0000, 1));
    assert!(!Sv39::is_aligned(0x20_0001, 1));

    assert!(Sv39::is_aligned(0x4000_0000, 2));
    assert!(!Sv39::is_aligned(0x4000_0001, 2));
}

#[test]
fn test_page_alignment_helpers() {
    assert_eq!(Sv39::align_down(0x1234, 0), 0x1000);
    assert_eq!(Sv39::align_up(0x1234, 0), 0x2000);

    assert_eq!(Sv39::align_down(0x1000, 0), 0x1000);
    assert_eq!(Sv39::align_up(0x1000, 0), 0x1000);
}



#[test]
fn test_page_table_walk_basic() {

    // Set up physical memory with a simple page table
    let mut mem = PhysicalMemory::new(0x8000_0000, 0x10000);

    // Root page table at PPN = 0x80000 (physical address 0x8000_0000)
    // Note: PPN = PA >> 12, so 0x8000_0000 >> 12 = 0x80000
    let root_ppn = 0x80000u64;

    // Create a level 2 entry pointing to a 1GB page
    // PTE: Valid, Readable, Writable, PPN = 0x90000
    let pte = PageTableEntry::new_leaf(0x90000, PagePermissions::rw(), false);

    // Write PTE at index 0 (VPN2 = 0)
    // PTE address = (0x80000 << 12) + (0 * 8) = 0x8000_0000
    mem.write_dword(0x8000_0000u64, pte.bits()).unwrap();

    // Create walker and test - explicitly cast to trait object
    let walker = PageTableWalker::new(&mem, root_ppn);

    // Test VA = 0 (VPN2=0, VPN1=0, VPN0=0, offset=0)
    let va = VirtualAddress::new(0).unwrap();
    match walker.walk(va) {
        WalkResult::Success { paddr, level, .. } => {
            // For 1GB page at PPN 0x90000, VA 0 -> PA 0x9000_0000
            assert_eq!(paddr, 0x9000_0000);
            assert_eq!(level, 2);
        }
        other => panic!("Expected Success, got {:?}", other),
    }

    // Test VA with offset
    let va = VirtualAddress::new(0x1234).unwrap();
    match walker.walk(va) {
        WalkResult::Success { paddr, .. } => {
            assert_eq!(paddr, 0x9000_1234);
        }
        other => panic!("Expected Success, got {:?}", other),
    }
}

#[test]
fn test_page_table_walk_invalid_pte() {
    // Create memory large enough for root table at 0x8000_0000
    let mem = PhysicalMemory::new(0x8000_0000, 0x20000);
    let root_ppn = 0x80000; // Root at 0x8000_0000

    // Don't write any PTE - all entries are invalid (0)

    let walker = PageTableWalker::new(&mem, root_ppn);
    let va = VirtualAddress::new(0).unwrap();

    match walker.walk(va) {
        WalkResult::PageFault { level } => {
            assert_eq!(level, 2); // Fault at level 2
        }
        other => panic!("Expected PageFault, got {:?}", other),
    }
}

#[test]
fn test_page_table_walk_multi_level() {
    // Set up a 3-level page table
    // Need space for: root (0x8000_0000), level1 (0x8000_1000), level0 (0x8000_2000), and data (0x9000_0000)
    let mut mem = PhysicalMemory::new(0x8000_0000, 0x1001_0000);

    let root_ppn = 0x80000; // Root at 0x8000_0000
    let level1_ppn = 0x80001; // Level 1 table at 0x8000_1000
    let level0_ppn = 0x80002; // Level 0 table at 0x8000_2000

    // Root entry 0 -> level 1 table
    let root_pte = PageTableEntry::new_pointer(level1_ppn);
    mem.write_dword(root_ppn << 12, root_pte.bits()).unwrap();

    // Level 1 entry 0 -> level 0 table
    let level1_pte = PageTableEntry::new_pointer(level0_ppn);
    mem.write_dword(level1_ppn << 12, level1_pte.bits()).unwrap();

    // Level 0 entry 0 -> 4KB page at 0x9000_0000
    let level0_pte = PageTableEntry::new_leaf(0x90000, PagePermissions::rwx(), false);
    mem.write_dword(level0_ppn << 12, level0_pte.bits()).unwrap();

    let walker = PageTableWalker::new(&mem, root_ppn);

    // Test VA = 0
    let va = VirtualAddress::new(0).unwrap();
    match walker.walk(va) {
        WalkResult::Success { paddr, level, .. } => {
            assert_eq!(paddr, 0x9000_0000); // Data at PPN 0x90000
            assert_eq!(level, 0); // Found at level 0
        }
        other => panic!("Expected Success, got {:?}", other),
    }
}

#[test]
fn test_walk_with_permission_check() {
    // Need space for root (0x8000_0000) and data (0x9000_0000)
    let mut mem = PhysicalMemory::new(0x8000_0000, 0x1001_0000);
    let root_ppn = 0x80000; // Root at 0x8000_0000

    // Create a user-mode executable page (gigapage)
    let pte = PageTableEntry::new_leaf(0x90000, PagePermissions::user_rx(), false);
    mem.write_dword(root_ppn << 12, pte.bits()).unwrap();

    let walker = PageTableWalker::new(&mem, root_ppn);
    let va = VirtualAddress::new(0).unwrap();

    // User execute should succeed (page is user+execute)
    match walker.walk_check_permissions(va, AccessType::InstructionFetch, true) {
        WalkResult::Success { .. } => {}
        other => panic!("Expected Success for user execute, got {:?}", other),
    }

    // User write should fail (page is RX, not RW)
    match walker.walk_check_permissions(va, AccessType::Write, true) {
        WalkResult::PageFault { .. } => {}
        other => panic!("Expected PageFault for user write, got {:?}", other),
    }

    // Supervisor read from user page should succeed (RISC-V allows this)
    // Note: SSTATUS.SUM bit controls this, but we allow it by default
    match walker.walk_check_permissions(va, AccessType::Read, false) {
        WalkResult::Success { .. } => {}
        other => panic!("Expected Success for supervisor read from user page, got {:?}", other),
    }
}
