use ruscv_sim::mmu::{Mmu, MmuConfig, Satp, TranslationMode};
#[test]
fn test_mmu_creation() {
    let config = MmuConfig::default();
    let mmu = Mmu::new(config);

    let (itlb_stats, dtlb_stats) = mmu.tlb_stats();
    assert_eq!(itlb_stats.accesses, 0);
    assert_eq!(dtlb_stats.accesses, 0);
}

#[test]
fn test_translation_mode_parsing() {
    assert_eq!(TranslationMode::from_satp(0), Some(TranslationMode::Bare));
    assert_eq!(
        TranslationMode::from_satp(8 << 60),
        Some(TranslationMode::Sv39)
    );
    assert_eq!(
        TranslationMode::from_satp(9 << 60),
        Some(TranslationMode::Sv48)
    );
    // Invalid mode returns None
    assert_eq!(TranslationMode::from_satp(15 << 60), None);
}

#[test]
fn test_satp_parsing() {
    // Sv39 mode, ASID=1, PPN=0x12345
    let satp = Satp((8 << 60) | (1 << 44) | 0x12345);

    assert_eq!(satp.mode(), Some(TranslationMode::Sv39));
    assert_eq!(satp.asid(), 1);
    assert_eq!(satp.ppn(), 0x12345);
    assert_eq!(satp.root_page_table_addr(), 0x12345 << 12);
    assert!(satp.paging_enabled());
    assert!(satp.is_valid());
}

#[test]
fn test_satp_bare_mode() {
    let satp = Satp(0);

    assert_eq!(satp.mode(), Some(TranslationMode::Bare));
    assert!(!satp.paging_enabled());
    assert!(satp.is_valid());
}

#[test]
fn test_satp_invalid_mode() {
    // Invalid mode (15)
    let satp = Satp(15 << 60);

    assert_eq!(satp.mode(), None);
    assert!(!satp.paging_enabled());
    assert!(!satp.is_valid());
}
