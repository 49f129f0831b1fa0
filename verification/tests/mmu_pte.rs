use ruscv_sim::mmu::pte::flags;
use ruscv_sim::mmu::pte::{PagePermissions, PageTableEntry};
#[test]
fn test_pte_flags() {
    let pte = PageTableEntry::from_raw(flags::V | flags::R | flags::W);
    assert!(pte.is_valid());
    assert!(pte.is_leaf());
    let p = pte.permissions();
    assert!(p.read);
    assert!(p.write);
    assert!(!p.execute);
}

#[test]
fn test_pte_pointer() {
    let pte = PageTableEntry::new_pointer(0x12345);
    assert!(pte.is_valid());
    assert!(pte.is_pointer());
    assert!(!pte.is_leaf());
    assert_eq!(pte.ppn(), 0x12345);
}

#[test]
fn test_pte_leaf() {
    let perms = PagePermissions::rwx();
    let pte = PageTableEntry::new_leaf(0xABCDE, perms, false);
    assert!(pte.is_valid());
    assert!(pte.is_leaf());
    assert_eq!(pte.ppn(), 0xABCDE);
    let p = pte.permissions();
    assert!(p.read && p.write && p.execute);
}

#[test]
fn test_pte_accessed_dirty() {
    let mut pte = PageTableEntry::new_leaf(0x1000, PagePermissions::rw(), false);
    assert!(!pte.is_accessed());
    assert!(!pte.is_dirty());
    pte.set_accessed();
    assert!(pte.is_accessed());
    pte.set_dirty();
    assert!(pte.is_dirty());
    pte.clear_accessed();
    assert!(!pte.is_accessed());
    pte.clear_dirty();
    assert!(!pte.is_dirty());
}

#[test]
fn test_invalid_permissions() {
    // W=1, R=0 is reserved
    let pte = PageTableEntry::from_raw(flags::V | flags::W);
    assert!(!pte.has_valid_permissions());
}

#[test]
fn test_pte_global() {
    let pte = PageTableEntry::new_leaf(0x1000, PagePermissions::rwx(), true);
    assert!(pte.is_global());

    let pte2 = PageTableEntry::new_leaf(0x1000, PagePermissions::rwx(), false);
    assert!(!pte2.is_global());
}

#[test]
fn test_pte_user() {
    let pte = PageTableEntry::new_leaf(0x1000, PagePermissions::user_rw(), false);
    assert!(pte.user_accessible());
    assert!(pte.permissions().user);
}

#[test]
fn test_pte_ppn_extraction() {
    // Create PTE with specific PPN values
    // PPN2 = 0x123, PPN1 = 0x45, PPN0 = 0x67
    // Full PPN = (0x123 << 18) | (0x45 << 9) | 0x67 = 0x48A2B67 >> 10 ... wait
    // Let's use simpler values
    let pte = PageTableEntry::from_raw((0x12345 << 10) | flags::V | flags::R);

    assert_eq!(pte.ppn(), 0x12345);
    assert_eq!(pte.physical_address(), 0x12345 << 12);
}

#[test]
fn test_pte_rsw() {
    let mut pte = PageTableEntry::new_leaf(0x1000, PagePermissions::rw(), false);
    assert_eq!(pte.rsw(), 0);

    pte.set_rsw(3);
    assert_eq!(pte.rsw(), 3);

    pte.set_rsw(1);
    assert_eq!(pte.rsw(), 1);
}

#[test]
fn test_permission_helpers() {
    let pte = PageTableEntry::new_leaf(0x1000, PagePermissions::rwx(), false);
    assert!(pte.readable());
    assert!(pte.writable());
    assert!(pte.executable());

    let pte_rx = PageTableEntry::new_leaf(0x1000, PagePermissions::rx(), false);
    assert!(pte_rx.readable());
    assert!(!pte_rx.writable());
    assert!(pte_rx.executable());
}

#[test]
fn test_pte_is_valid_leaf() {
    let leaf = PageTableEntry::new_leaf(0x1000, PagePermissions::rw(), false);
    assert!(leaf.is_valid_leaf());

    let ptr = PageTableEntry::new_pointer(0x1000);
    assert!(!ptr.is_valid_leaf());

    let invalid = PageTableEntry::from_raw(0);
    assert!(!invalid.is_valid_leaf());
}
