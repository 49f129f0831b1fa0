use ruscv_sim::hart_amods::AmoOperation;
use ruscv_sim::memory::MemoryError;
use ruscv_sim::mmu::{AccessType, MmuError, PageFaultReason, TranslationMode};

#[test]
fn page_fault_reasons_read_as_text() {
    let r = PageFaultReason::PermissionDenied { access_type: AccessType::Write, vaddr: 0x1000 };
    assert_eq!(r.to_display_string(), "Permission denied for access Write at address 0x0000000000001000");
    let r = PageFaultReason::PageTableWalk { level: 2, vaddr: 0xABC };
    assert_eq!(r.to_display_string(), "Page fault at level 2 for address 0x0000000000000abc");
    let r = PageFaultReason::NotDirty { vaddr: 1 };
    assert_eq!(r.to_display_string(), "Page not dirty (D=0) for write at address 0x0000000000000001");
}

#[test]
fn mmu_errors_read_as_text() {
    assert_eq!(
        MmuError::PageFault(PageFaultReason::NotAccessed { vaddr: 0x20 }).to_display_string(),
        "Page fault: Page not accessed (A=0) at address 0x0000000000000020"
    );
    assert_eq!(
        MmuError::UnsupportedMode(TranslationMode::Sv48).to_display_string(),
        "Translation mode not supported: Sv48"
    );
    assert_eq!(MmuError::InvalidSatpMode(15).to_display_string(), "Invalid SATP mode: 15");
    assert_eq!(
        MmuError::InvalidVirtualAddress(u64::MAX).to_display_string(),
        "Invalid virtual address: 0xffffffffffffffff"
    );
}

#[test]
fn memory_errors_read_as_text() {
    assert_eq!(
        MemoryError::Misaligned(0x101, 4).to_display_string(),
        "Misaligned access: addr 0x0000000000000101, requires 4-byte alignment"
    );
    assert_eq!(MemoryError::OutOfBounds.to_display_string(), "Memory access out of bounds");
    assert_eq!(
        MemoryError::Backend("disk".to_string()).to_display_string(),
        "Memory backend failure: disk"
    );
}

#[test]
fn amo_operations_read_as_mnemonics() {
    assert_eq!(AmoOperation::Swap.to_display_string(), "amoswap");
    assert_eq!(AmoOperation::BitXor.to_display_string(), "amoxor");
    assert_eq!(AmoOperation::Maxu.to_display_string(), "amomaxu");
}
