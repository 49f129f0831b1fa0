use ruscv_sim::mmu::physical::PhysicalMemory;
#[test]
fn test_physical_memory_basic() {
    let mut mem = PhysicalMemory::new(0x8000_0000, 0x1000);

    mem.write_byte(0x8000_0000, 0x42).unwrap();
    assert_eq!(mem.read_byte(0x8000_0000).unwrap(), 0x42);
}

#[test]
fn test_physical_memory_dword() {
    let mut mem = PhysicalMemory::new(0x8000_0000, 0x1000);

    mem.write_dword(0x8000_0000, 0x1234_5678_9ABC_DEF0).unwrap();
    assert_eq!(mem.read_dword(0x8000_0000).unwrap(), 0x1234_5678_9ABC_DEF0);
}

#[test]
fn test_invalid_address() {
    let mem = PhysicalMemory::new(0x8000_0000, 0x1000);

    assert!(mem.read_byte(0x0000_0000).is_err());
    assert!(mem.read_byte(0x9000_0000).is_err());
}
