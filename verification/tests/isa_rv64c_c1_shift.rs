use ruscv_sim::isa::rv64c::c1_shift::exec_c_slli;
use ruscv_sim::isa::rv64c::c1_shift::exec_c_srai;
use ruscv_sim::isa::rv64c::c1_shift::exec_c_srli;
use ruscv_sim::cpu::CoreState;

fn setup_test() -> CoreState {
    CoreState::default()
}

#[test]
fn test_c_srli() {
    let mut state = setup_test();

    state.regs[8] = 0xF0F0F0F0F0F0F0F0;

    // C.SRLI x8, 4
    exec_c_srli(8, 4, &mut state).unwrap();

    // Logical right shift fills with zeros
    assert_eq!(state.regs[8], 0x0F0F0F0F0F0F0F0F);
}

#[test]
fn test_c_srli_zero_fill() {
    let mut state = setup_test();

    // Value with high bit set
    state.regs[8] = 0x8000000000000000;

    // C.SRLI x8, 1
    exec_c_srli(8, 1, &mut state).unwrap();

    // Logical shift fills with zero
    assert_eq!(state.regs[8], 0x4000000000000000);
}

#[test]
fn test_c_srli_by_zero() {
    let mut state = setup_test();

    state.regs[8] = 0x123456789ABCDEF0;

    // C.SRLI x8, 0
    exec_c_srli(8, 0, &mut state).unwrap();

    // No change
    assert_eq!(state.regs[8], 0x123456789ABCDEF0);
}

#[test]
fn test_c_srli_by_63() {
    let mut state = setup_test();

    state.regs[8] = 0x8000000000000000;

    // C.SRLI x8, 63
    exec_c_srli(8, 63, &mut state).unwrap();

    // Only LSB should be 1
    assert_eq!(state.regs[8], 1);
}

#[test]
fn test_c_srli_invalid_shamt() {
    let mut state = setup_test();

    state.regs[8] = 0x123456789ABCDEF0;

    // C.SRLI with shamt > 63 should fail
    let result = exec_c_srli(8, 64, &mut state);
    assert!(result.is_err());
}

#[test]
fn test_c_srai() {
    let mut state = setup_test();

    // Positive value
    state.regs[8] = 0x0F0F0F0F0F0F0F0F;

    // C.SRAI x8, 4
    exec_c_srai(8, 4, &mut state).unwrap();

    // Arithmetic right shift of positive is same as logical
    assert_eq!(state.regs[8], 0x00F0F0F0F0F0F0F0);
}

#[test]
fn test_c_srai_sign_extend() {
    let mut state = setup_test();

    // Negative value (sign bit set)
    state.regs[8] = 0xF0F0F0F0F0F0F0F0;

    // C.SRAI x8, 4
    exec_c_srai(8, 4, &mut state).unwrap();

    // Arithmetic shift fills with sign bit (1)
    assert_eq!(state.regs[8], 0xFF0F0F0F0F0F0F0F);
}

#[test]
fn test_c_srai_negative_value() {
    let mut state = setup_test();

    // Negative value
    state.regs[8] = 0xFFFFFFFFFFFFFFFF; // -1

    // C.SRAI x8, 1
    exec_c_srai(8, 1, &mut state).unwrap();

    // Still -1 (sign-extended)
    assert_eq!(state.regs[8], 0xFFFFFFFFFFFFFFFF);
}

#[test]
fn test_c_srai_by_zero() {
    let mut state = setup_test();

    state.regs[8] = 0x123456789ABCDEF0;

    // C.SRAI x8, 0
    exec_c_srai(8, 0, &mut state).unwrap();

    // No change
    assert_eq!(state.regs[8], 0x123456789ABCDEF0);
}

#[test]
fn test_c_srai_invalid_shamt() {
    let mut state = setup_test();

    state.regs[8] = 0x123456789ABCDEF0;

    // C.SRAI with shamt > 63 should fail
    let result = exec_c_srai(8, 64, &mut state);
    assert!(result.is_err());
}

#[test]
fn c1_shift_test_c_slli() {
    let mut state = setup_test();

    state.regs[5] = 0x00000000000000FF;

    // C.SLLI x5, 8
    exec_c_slli(5, 8, &mut state).unwrap();

    assert_eq!(state.regs[5], 0x000000000000FF00);
}

#[test]
fn c1_shift_test_c_slli_overflow() {
    let mut state = setup_test();

    // Value that will overflow
    state.regs[5] = 0xFF00000000000000;

    // C.SLLI x5, 8
    exec_c_slli(5, 8, &mut state).unwrap();

    // Bits shifted out are lost
    assert_eq!(state.regs[5], 0x0000000000000000);
}

#[test]
fn c1_shift_test_c_slli_by_zero() {
    let mut state = setup_test();

    state.regs[5] = 0x123456789ABCDEF0;

    // C.SLLI x5, 0
    exec_c_slli(5, 0, &mut state).unwrap();

    // No change
    assert_eq!(state.regs[5], 0x123456789ABCDEF0);
}

#[test]
fn c1_shift_test_c_slli_by_63() {
    let mut state = setup_test();

    state.regs[5] = 0x0000000000000001;

    // C.SLLI x5, 63
    exec_c_slli(5, 63, &mut state).unwrap();

    // Only MSB should be set
    assert_eq!(state.regs[5], 0x8000000000000000);
}

#[test]
fn c1_shift_test_c_slli_x0_fails() {
    let mut state = setup_test();

    // C.SLLI x0, 1 should fail
    let result = exec_c_slli(0, 1, &mut state);
    assert!(result.is_err());
}

#[test]
fn c1_shift_test_c_slli_invalid_shamt() {
    let mut state = setup_test();

    state.regs[5] = 0x123456789ABCDEF0;

    // C.SLLI with shamt > 63 should fail
    let result = exec_c_slli(5, 64, &mut state);
    assert!(result.is_err());
}
