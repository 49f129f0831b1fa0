use ruscv_sim::isa::rv64c::c2_stack::exec_c_ldsp;
use ruscv_sim::isa::rv64c::c2_stack::exec_c_lwsp;
use ruscv_sim::isa::rv64c::c2_stack::exec_c_sdsp;
use ruscv_sim::isa::rv64c::c2_stack::exec_c_slli;
use ruscv_sim::isa::rv64c::c2_stack::exec_c_swsp;
use ruscv_sim::memory::MemoryInterface;
use ruscv_sim::cpu::CoreState;
use ruscv_sim::memory::SimpleMemory;

fn setup_test() -> (CoreState, SimpleMemory) {
    (CoreState::default(), SimpleMemory::new(0x20000)) // 128KB for stack tests
}

#[test]
fn c2_stack_test_c_slli() {
    let (mut state, _mem) = setup_test();

    state.regs[5] = 0x00000000000000FF;

    // C.SLLI x5, 8
    exec_c_slli(5, 8, &mut state).unwrap();

    assert_eq!(state.regs[5], 0x000000000000FF00);
}

#[test]
fn c2_stack_test_c_slli_overflow() {
    let (mut state, _mem) = setup_test();

    // Value that will overflow
    state.regs[5] = 0xFF00000000000000;

    // C.SLLI x5, 8
    exec_c_slli(5, 8, &mut state).unwrap();

    // Bits shifted out are lost
    assert_eq!(state.regs[5], 0x0000000000000000);
}

#[test]
fn c2_stack_test_c_slli_by_zero() {
    let (mut state, _mem) = setup_test();

    state.regs[5] = 0x123456789ABCDEF0;

    // C.SLLI x5, 0
    exec_c_slli(5, 0, &mut state).unwrap();

    // No change
    assert_eq!(state.regs[5], 0x123456789ABCDEF0);
}

#[test]
fn c2_stack_test_c_slli_by_63() {
    let (mut state, _mem) = setup_test();

    state.regs[5] = 0x0000000000000001;

    // C.SLLI x5, 63
    exec_c_slli(5, 63, &mut state).unwrap();

    // Only MSB should be set
    assert_eq!(state.regs[5], 0x8000000000000000);
}

#[test]
fn c2_stack_test_c_slli_x0_fails() {
    let (mut state, _mem) = setup_test();

    // C.SLLI x0, 1 should fail
    let result = exec_c_slli(0, 1, &mut state);
    assert!(result.is_err());
}

#[test]
fn c2_stack_test_c_slli_invalid_shamt() {
    let (mut state, _mem) = setup_test();

    state.regs[5] = 0x123456789ABCDEF0;

    // C.SLLI with shamt > 63 should fail
    let result = exec_c_slli(5, 64, &mut state);
    assert!(result.is_err());
}

#[test]
fn test_c_lwsp() {
    let (mut state, mut mem) = setup_test();

    // Set up stack pointer
    state.regs[2] = 0x1000;

    // Write test value to memory
    mem.write_word(0x1004, 0xDEADBEEF).unwrap();

    // Execute C.LWSP x5, 4
    exec_c_lwsp(5, 4, &mut state, &mut mem).unwrap();

    // Should be sign-extended
    assert_eq!(state.regs[5], 0xFFFFFFFF_DEADBEEF);
}

#[test]
fn test_c_lwsp_x0_fails() {
    let (mut state, mut mem) = setup_test();

    state.regs[2] = 0x1000;

    // C.LWSP x0, 4 should fail
    let result = exec_c_lwsp(0, 4, &mut state, &mut mem);
    assert!(result.is_err());
}

#[test]
fn test_c_lwsp_misaligned() {
    let (mut state, mut mem) = setup_test();

    state.regs[2] = 0x1001; // Misaligned SP

    // C.LWSP x5, 0 should fail due to misalignment
    let result = exec_c_lwsp(5, 0, &mut state, &mut mem);
    assert!(result.is_err());
}

#[test]
fn test_c_ldsp() {
    let (mut state, mut mem) = setup_test();

    // Set up stack pointer
    state.regs[2] = 0x1000;

    // Write test value to memory
    mem.write_dword(0x1008, 0x123456789ABCDEF0).unwrap();

    // Execute C.LDSP x5, 8
    exec_c_ldsp(5, 8, &mut state, &mut mem).unwrap();

    assert_eq!(state.regs[5], 0x123456789ABCDEF0);
}

#[test]
fn test_c_ldsp_x0_fails() {
    let (mut state, mut mem) = setup_test();

    state.regs[2] = 0x1000;

    // C.LDSP x0, 8 should fail
    let result = exec_c_ldsp(0, 8, &mut state, &mut mem);
    assert!(result.is_err());
}

#[test]
fn test_c_swsp() {
    let (mut state, mut mem) = setup_test();

    // Set up stack pointer and source register
    state.regs[2] = 0x1000;
    state.regs[5] = 0xDEADBEEF;

    // Execute C.SWSP x5, 4
    exec_c_swsp(5, 4, &mut state, &mut mem).unwrap();

    // Verify memory
    assert_eq!(mem.read_word(0x1004).unwrap(), 0xDEADBEEF);
}

#[test]
fn test_c_swsp_misaligned() {
    let (mut state, mut mem) = setup_test();

    state.regs[2] = 0x1001; // Misaligned SP
    state.regs[5] = 0xDEADBEEF;

    // C.SWSP x5, 0 should fail due to misalignment
    let result = exec_c_swsp(5, 0, &mut state, &mut mem);
    assert!(result.is_err());
}

#[test]
fn test_c_sdsp() {
    let (mut state, mut mem) = setup_test();

    // Set up stack pointer and source register
    state.regs[2] = 0x1000;
    state.regs[5] = 0x123456789ABCDEF0;

    // Execute C.SDSP x5, 8
    exec_c_sdsp(5, 8, &mut state, &mut mem).unwrap();

    // Verify memory
    assert_eq!(mem.read_dword(0x1008).unwrap(), 0x123456789ABCDEF0);
}

#[test]
fn test_c_sdsp_misaligned() {
    let (mut state, mut mem) = setup_test();

    state.regs[2] = 0x1001; // Misaligned SP
    state.regs[5] = 0x123456789ABCDEF0;

    // C.SDSP x5, 0 should fail due to misalignment
    let result = exec_c_sdsp(5, 0, &mut state, &mut mem);
    assert!(result.is_err());
}
