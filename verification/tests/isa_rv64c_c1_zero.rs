use ruscv_sim::cpu::CoreState;
use ruscv_sim::isa::rv64c::c1_zero::exec_c_addi_hint;
use ruscv_sim::isa::rv64c::c1_zero::exec_c_nop;
fn setup_test() -> CoreState {
    CoreState::default()
}

#[test]
fn test_c_nop() {
    let mut state = setup_test();

    // Set up some initial state
    state.pc = 0x100;
    state.regs[1] = 0x123456789ABCDEF0;

    // C.NOP should not change any state
    exec_c_nop(&mut state).unwrap();

    // Verify state is unchanged
    assert_eq!(state.pc, 0x100);
    assert_eq!(state.regs[1], 0x123456789ABCDEF0);
    assert_eq!(state.regs[0], 0); // x0 always zero
}

#[test]
fn test_c_addi_hint_zero() {
    let mut state = setup_test();

    // C.ADDI x0, 0 is C.NOP (hint)
    exec_c_addi_hint(0, &mut state).unwrap();

    // State should be unchanged
    assert_eq!(state.regs[0], 0);
}

#[test]
fn test_c_addi_hint_nonzero() {
    let mut state = setup_test();

    // C.ADDI x0, n (where n != 0) is a hint
    exec_c_addi_hint(0x1F, &mut state).unwrap();

    // State should be unchanged
    assert_eq!(state.regs[0], 0);
}

#[test]
fn test_c_nop_sequence() {
    let mut state = setup_test();

    // Multiple NOPs should have no effect
    state.pc = 0x100;

    exec_c_nop(&mut state).unwrap();
    exec_c_nop(&mut state).unwrap();
    exec_c_nop(&mut state).unwrap();

    assert_eq!(state.pc, 0x100);
}

#[test]
fn test_c_nop_with_register_operations() {
    let mut state = setup_test();

    // Set up initial values
    state.regs[5] = 100;
    state.regs[6] = 200;

    // Perform some operations
    state.regs[7] = state.regs[5] + state.regs[6]; // 300

    // NOP should not affect anything
    exec_c_nop(&mut state).unwrap();

    // Verify all values are preserved
    assert_eq!(state.regs[5], 100);
    assert_eq!(state.regs[6], 200);
    assert_eq!(state.regs[7], 300);
}
