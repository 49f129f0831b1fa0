use ruscv_sim::isa::rv64c::c1_addiw::exec_c_addiw;
use ruscv_sim::isa::rv64c::c1_addiw::exec_c_addw;
use ruscv_sim::isa::rv64c::c1_addiw::exec_c_subw;
use ruscv_sim::cpu::CoreState;

fn setup_test() -> CoreState {
    CoreState::default()
}

#[test]
fn test_c_addiw() {
    let mut state = setup_test();

    // Set up 32-bit value
    state.regs[5] = 0x00000000_FFFFFFFF;

    // C.ADDIW x5, 1
    exec_c_addiw(5, 1, &mut state).unwrap();

    // Result should be 0 (0xFFFFFFFF + 1 = 0x100000000, truncated to 32 bits = 0)
    // Then sign-extended to 64 bits = 0
    assert_eq!(state.regs[5], 0);
}

#[test]
fn test_c_addiw_negative() {
    let mut state = setup_test();

    // Set up 32-bit value
    state.regs[5] = 0;

    // C.ADDIW x5, -1 (0x3F = 63 unsigned = -1 in 6-bit signed)
    exec_c_addiw(5, 0x3F, &mut state).unwrap();

    // Result should be 0xFFFFFFFFFFFFFFFF (sign-extended -1)
    assert_eq!(state.regs[5], 0xFFFFFFFFFFFFFFFF);
}

#[test]
fn test_c_addiw_sign_extend_positive() {
    let mut state = setup_test();

    // Set up value
    state.regs[5] = 0x00000000_7FFFFFFF;

    // C.ADDIW x5, 0 (should sign-extend)
    exec_c_addiw(5, 0, &mut state).unwrap();

    // Result should be 0x00000000_7FFFFFFF (positive, so upper bits are 0)
    assert_eq!(state.regs[5], 0x00000000_7FFFFFFF);
}

#[test]
fn test_c_addiw_sign_extend_negative() {
    let mut state = setup_test();

    // Set up value with high bit set
    state.regs[5] = 0x00000000_80000000;

    // C.ADDIW x5, 0 (should sign-extend)
    exec_c_addiw(5, 0, &mut state).unwrap();

    // Result should be 0xFFFFFFFF_80000000 (negative, so upper bits are 1s)
    assert_eq!(state.regs[5], 0xFFFFFFFF80000000);
}

#[test]
fn test_c_subw() {
    let mut state = setup_test();

    // Set up values
    state.regs[8] = 0x00000000_00000064; // 100
    state.regs[9] = 0x00000000_0000001E; // 30

    // C.SUBW x8, x9
    exec_c_subw(8, 9, &mut state).unwrap();

    // Result should be 70 (100 - 30), sign-extended
    assert_eq!(state.regs[8], 70);
}

#[test]
fn test_c_subw_overflow() {
    let mut state = setup_test();

    // Set up values for overflow
    state.regs[8] = 0; // 0
    state.regs[9] = 1; // 1

    // C.SUBW x8, x9 (0 - 1 = -1, sign-extended)
    exec_c_subw(8, 9, &mut state).unwrap();

    // Result should be 0xFFFFFFFFFFFFFFFF (sign-extended -1)
    assert_eq!(state.regs[8], 0xFFFFFFFFFFFFFFFF);
}

#[test]
fn test_c_addw() {
    let mut state = setup_test();

    // Set up values
    state.regs[8] = 0x00000000_0000000A; // 10
    state.regs[9] = 0x00000000_00000014; // 20

    // C.ADDW x8, x9
    exec_c_addw(8, 9, &mut state).unwrap();

    // Result should be 30, sign-extended
    assert_eq!(state.regs[8], 30);
}

#[test]
fn test_c_addw_overflow() {
    let mut state = setup_test();

    // Set up values for overflow
    state.regs[8] = 0xFFFFFFFF; // 0xFFFFFFFF = -1 in 32-bit
    state.regs[9] = 0x00000001; // 1

    // C.ADDW x8, x9 (-1 + 1 = 0)
    exec_c_addw(8, 9, &mut state).unwrap();

    // Result should be 0
    assert_eq!(state.regs[8], 0);
}

#[test]
fn test_c_addiw_x0_fails() {
    let mut state = setup_test();

    // C.ADDIW x0, 1 should fail
    let result = exec_c_addiw(0, 1, &mut state);
    assert!(result.is_err());
}
