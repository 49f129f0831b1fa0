use ruscv_sim::isa::rv64c::c0_quadw::exec_c_addi4spn;
use ruscv_sim::isa::rv64c::c0_quadw::exec_c_ld;
use ruscv_sim::isa::rv64c::c0_quadw::exec_c_lw;
use ruscv_sim::isa::rv64c::c0_quadw::exec_c_sd;
use ruscv_sim::isa::rv64c::c0_quadw::exec_c_sw;
use ruscv_sim::memory::MemoryInterface;
use ruscv_sim::cpu::CoreState;
use ruscv_sim::memory::SimpleMemory;

fn setup_test() -> (CoreState, SimpleMemory) {
    (CoreState::default(), SimpleMemory::new(0x20000)) // 128KB
}

#[test]
fn test_c_addi4spn() {
    let (mut state, _mem) = setup_test();

    // Set SP to some value
    state.regs[2] = 0x1000;

    // Execute C.ADDI4SPN x8, 64
    exec_c_addi4spn(8, 64, &mut state).unwrap();

    assert_eq!(state.regs[8], 0x1040);
}

#[test]
fn test_c_addi4spn_zero_imm_fails() {
    let (mut state, _mem) = setup_test();
    state.regs[2] = 0x1000;

    // C.ADDI4SPN with imm=0 should fail
    let result = exec_c_addi4spn(8, 0, &mut state);
    assert!(result.is_err());
}

#[test]
fn test_c_lw() {
    let (mut state, mut mem) = setup_test();

    // Set up base address
    state.regs[8] = 0x100;

    // Write test value to memory
    mem.write_word(0x104, 0xDEADBEEF).unwrap();

    // Execute C.LW x9, 4(x8) - offset is 4 bytes
    exec_c_lw(9, 8, 4, &mut state, &mut mem).unwrap();

    // Should be sign-extended
    assert_eq!(state.regs[9], 0xFFFFFFFF_DEADBEEF);
}

#[test]
fn test_c_ld() {
    let (mut state, mut mem) = setup_test();

    // Set up base address
    state.regs[8] = 0x100;

    // Write test value to memory
    mem.write_dword(0x108, 0x123456789ABCDEF0).unwrap();

    // Execute C.LD x9, 8(x8) - offset is 8 bytes
    exec_c_ld(9, 8, 8, &mut state, &mut mem).unwrap();

    assert_eq!(state.regs[9], 0x123456789ABCDEF0);
}

#[test]
fn test_c_sw() {
    let (mut state, mut mem) = setup_test();

    // Set up registers
    state.regs[8] = 0x100; // base
    state.regs[9] = 0xDEADBEEF; // value to store (lower 32 bits)

    // Execute C.SW x9, 4(x8)
    exec_c_sw(8, 9, 4, &mut state, &mut mem).unwrap();

    // Verify memory
    assert_eq!(mem.read_word(0x104).unwrap(), 0xDEADBEEF);
}

#[test]
fn test_c_sd() {
    let (mut state, mut mem) = setup_test();

    // Set up registers
    state.regs[8] = 0x100; // base
    state.regs[9] = 0x123456789ABCDEF0; // value to store

    // Execute C.SD x9, 8(x8)
    exec_c_sd(8, 9, 8, &mut state, &mut mem).unwrap();

    // Verify memory
    assert_eq!(mem.read_dword(0x108).unwrap(), 0x123456789ABCDEF0);
}

#[test]
fn test_c_lw_misaligned() {
    let (mut state, mut mem) = setup_test();

    state.regs[8] = 0x101; // misaligned base

    // Should fail due to misalignment
    let result = exec_c_lw(9, 8, 0, &mut state, &mut mem);
    assert!(result.is_err());
}
