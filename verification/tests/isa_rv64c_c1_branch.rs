use ruscv_sim::isa::rv64c::c1_branch::exec_c_beqz;
use ruscv_sim::isa::rv64c::c1_branch::exec_c_bnez;
use ruscv_sim::cpu::CoreState;

fn setup_test() -> CoreState {
    CoreState::default()
}

#[test]
fn test_c_beqz_taken() {
    let mut state = setup_test();

    // Set up register with zero value
    state.regs[8] = 0;
    state.pc = 0x100;

    // C.BEQZ x8, 32 (branch forward 32 bytes)
    exec_c_beqz(8, 32, &mut state).unwrap();

    // PC should be updated to 0x120 (0x100 + 32)
    assert_eq!(state.pc, 0x120);
}

#[test]
fn test_c_beqz_not_taken() {
    let mut state = setup_test();

    // Set up register with non-zero value
    state.regs[8] = 42;
    state.pc = 0x100;

    // C.BEQZ x8, 32 (branch should not be taken)
    exec_c_beqz(8, 32, &mut state).unwrap();

    // PC should remain unchanged
    assert_eq!(state.pc, 0x100);
}

#[test]
fn test_c_beqz_negative_offset() {
    let mut state = setup_test();

    // Set up register with zero value
    state.regs[8] = 0;
    state.pc = 0x100;

    // C.BEQZ x8, -16 (branch backward 16 bytes)
    exec_c_beqz(8, -16, &mut state).unwrap();

    // PC should be updated to 0xF0 (0x100 - 16)
    assert_eq!(state.pc, 0xF0);
}

#[test]
fn test_c_bnez_taken() {
    let mut state = setup_test();

    // Set up register with non-zero value
    state.regs[8] = 42;
    state.pc = 0x100;

    // C.BNEZ x8, 32 (branch forward 32 bytes)
    exec_c_bnez(8, 32, &mut state).unwrap();

    // PC should be updated to 0x120 (0x100 + 32)
    assert_eq!(state.pc, 0x120);
}

#[test]
fn test_c_bnez_not_taken() {
    let mut state = setup_test();

    // Set up register with zero value
    state.regs[8] = 0;
    state.pc = 0x100;

    // C.BNEZ x8, 32 (branch should not be taken)
    exec_c_bnez(8, 32, &mut state).unwrap();

    // PC should remain unchanged
    assert_eq!(state.pc, 0x100);
}

#[test]
fn test_c_bnez_negative_offset() {
    let mut state = setup_test();

    // Set up register with non-zero value
    state.regs[8] = 42;
    state.pc = 0x100;

    // C.BNEZ x8, -16 (branch backward 16 bytes)
    exec_c_bnez(8, -16, &mut state).unwrap();

    // PC should be updated to 0xF0 (0x100 - 16)
    assert_eq!(state.pc, 0xF0);
}

#[test]
fn test_c_beqz_misaligned() {
    let mut state = setup_test();

    // Set up register with zero value
    state.regs[8] = 0;
    state.pc = 0x100;

    // C.BEQZ x8, 1 (misaligned target)
    let result = exec_c_beqz(8, 1, &mut state);

    // Should fail due to misalignment
    assert!(result.is_err());
}

#[test]
fn test_c_bnez_misaligned() {
    let mut state = setup_test();

    // Set up register with non-zero value
    state.regs[8] = 42;
    state.pc = 0x100;

    // C.BNEZ x8, 1 (misaligned target)
    let result = exec_c_bnez(8, 1, &mut state);

    // Should fail due to misalignment
    assert!(result.is_err());
}

#[test]
fn test_c_beqz_loop_simulation() {
    let mut state = setup_test();

    // Simulate a simple loop: while (x8 != 0) { x8--; }
    state.regs[8] = 3; // Loop counter
    state.pc = 0x100; // Loop start

    // First iteration - C.BEQZ not taken (x8 = 3)
    exec_c_beqz(8, 16, &mut state).unwrap(); // Skip 16 bytes if zero
    assert_eq!(state.pc, 0x100); // PC unchanged
    state.regs[8] = 2; // Decrement counter

    // Second iteration - C.BEQZ not taken (x8 = 2)
    exec_c_beqz(8, 16, &mut state).unwrap();
    assert_eq!(state.pc, 0x100);
    state.regs[8] = 1; // Decrement counter

    // Third iteration - C.BEQZ not taken (x8 = 1)
    exec_c_beqz(8, 16, &mut state).unwrap();
    assert_eq!(state.pc, 0x100);
    state.regs[8] = 0; // Decrement counter

    // Fourth iteration - C.BEQZ taken (x8 = 0)
    exec_c_beqz(8, 16, &mut state).unwrap();
    assert_eq!(state.pc, 0x110); // Branch taken, PC updated
}

#[test]
fn test_c_bnez_forward_branch_simulation() {
    let mut state = setup_test();

    // Simulate: if (x8 != 0) goto label; else continue;
    state.regs[8] = 1; // Non-zero value
    state.pc = 0x100; // Current PC

    // C.BNEZ x8, 8 (branch forward if non-zero)
    exec_c_bnez(8, 8, &mut state).unwrap();

    // Branch should be taken
    assert_eq!(state.pc, 0x108);
}
