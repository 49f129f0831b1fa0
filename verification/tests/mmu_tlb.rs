use ruscv_sim::mmu::tlb::{Tlb, TlbEntry};
#[test]
fn test_tlb_basic() {
    let mut tlb = Tlb::new(64, 4);

    let entry = TlbEntry {
        vpn: 0x100,
        ppn: 0x200,
        asid: 0,
        global: false,
        read: true,
        write: true,
        execute: false,
        user: false,
        accessed: false,
        dirty: false,
    };

    tlb.insert(0x100, entry);

    let found = tlb.lookup(0x100, 0);
    assert!(found.is_some());
    assert_eq!(found.unwrap().ppn, 0x200);

    assert_eq!(tlb.stats().hits, 1);
}

#[test]
fn test_tlb_miss() {
    let mut tlb = Tlb::new(64, 4);

    let found = tlb.lookup(0x100, 0);
    assert!(found.is_none());
    assert_eq!(tlb.stats().misses, 1);
}

#[test]
fn test_tlb_asid() {
    let mut tlb = Tlb::new(64, 4);

    let entry = TlbEntry {
        vpn: 0x100,
        ppn: 0x200,
        asid: 1,
        global: false,
        read: true,
        ..Default::default()
    };

    tlb.insert(0x100, entry);

    // Same ASID - hit
    assert!(tlb.lookup(0x100, 1).is_some());

    // Different ASID - miss
    assert!(tlb.lookup(0x100, 2).is_none());
}

#[test]
fn test_tlb_global() {
    let mut tlb = Tlb::new(64, 4);

    let entry = TlbEntry {
        vpn: 0x100,
        ppn: 0x200,
        asid: 1,
        global: true,
        read: true,
        ..Default::default()
    };

    tlb.insert(0x100, entry);

    // Global entry matches any ASID
    assert!(tlb.lookup(0x100, 0).is_some());
    assert!(tlb.lookup(0x100, 99).is_some());
}

#[test]
fn test_tlb_flush() {
    let mut tlb = Tlb::new(64, 4);

    let entry = TlbEntry {
        vpn: 0x100,
        ppn: 0x200,
        asid: 1,
        global: false,
        read: true,
        ..Default::default()
    };

    tlb.insert(0x100, entry);
    assert!(tlb.lookup(0x100, 1).is_some());

    tlb.flush_all();
    assert!(tlb.lookup(0x100, 1).is_none());
}
