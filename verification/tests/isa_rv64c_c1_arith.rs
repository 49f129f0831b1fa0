use ruscv_sim::isa::rv64c::c1_arith::exec_c_add;
use ruscv_sim::isa::rv64c::c1_arith::exec_c_addi;
use ruscv_sim::isa::rv64c::c1_arith::exec_c_addi16sp;
use ruscv_sim::isa::rv64c::c1_arith::exec_c_and;
use ruscv_sim::isa::rv64c::c1_arith::exec_c_andi;
use ruscv_sim::isa::rv64c::c1_arith::exec_c_li;
use ruscv_sim::isa::rv64c::c1_arith::exec_c_lui;
use ruscv_sim::isa::rv64c::c1_arith::exec_c_mv;
use ruscv_sim::isa::rv64c::c1_arith::exec_c_or;
use ruscv_sim::isa::rv64c::c1_arith::exec_c_sub;
use ruscv_sim::isa::rv64c::c1_arith::exec_c_xor;
use ruscv_sim::cpu::CoreState;

fn setup_test() -> CoreState {
    CoreState::default()
}

#[test]
fn test_c_addi() {
    let mut state = setup_test();

    // Set up initial value
    state.regs[5] = 10;

    // C.ADDI x5, 5
    exec_c_addi(5, 5, &mut state).unwrap();

    assert_eq!(state.regs[5], 15);
}

#[test]
fn test_c_addi_negative() {
    let mut state = setup_test();

    // Set up initial value
    state.regs[5] = 10;

    // C.ADDI x5, -1 (encoded as 0x3F = 63 unsigned, -1 signed 6-bit)
    exec_c_addi(5, 0x3F, &mut state).unwrap();

    assert_eq!(state.regs[5], 9);
}

#[test]
fn test_c_addi_x0_fails() {
    let mut state = setup_test();

    // C.ADDI x0, 1 should fail
    let result = exec_c_addi(0, 1, &mut state);
    assert!(result.is_err());
}

#[test]
fn test_c_li() {
    let mut state = setup_test();

    // C.LI x5, 31 (max positive value for 6-bit signed immediate)
    exec_c_li(5, 31, &mut state).unwrap();

    assert_eq!(state.regs[5], 31);
}

#[test]
fn test_c_li_negative() {
    let mut state = setup_test();

    // C.LI x5, -1
    exec_c_li(5, 0x3F, &mut state).unwrap();

    assert_eq!(state.regs[5], 0xFFFFFFFFFFFFFFFF);
}

#[test]
fn test_c_lui() {
    let mut state = setup_test();

    // C.LUI x5, 0x12345
    exec_c_lui(5, 0x12345, &mut state).unwrap();

    assert_eq!(state.regs[5], 0x0000000012345000);
}

#[test]
fn test_c_addi16sp() {
    let mut state = setup_test();

    // Set SP
    state.regs[2] = 0x1000;

    // C.ADDI16SP -32 (encoded with appropriate immediate)
    // -32 / 16 = -2, encoded as 0x3E (62 unsigned for -2 in 6-bit signed)
    exec_c_addi16sp(0x3E, &mut state).unwrap();

    assert_eq!(state.regs[2], 0xFE0); // 0x1000 - 32 = 0xFE0 = 4064
}

#[test]
fn test_c_andi() {
    let mut state = setup_test();

    state.regs[8] = 0xFF;

    // C.ANDI x8, 0x0F
    exec_c_andi(8, 0x0F, &mut state).unwrap();

    assert_eq!(state.regs[8], 0x0F);
}

#[test]
fn test_c_mv() {
    let mut state = setup_test();

    state.regs[6] = 0x12345678;

    // C.MV x5, x6
    exec_c_mv(5, 6, &mut state).unwrap();

    assert_eq!(state.regs[5], 0x12345678);
}

#[test]
fn test_c_add() {
    let mut state = setup_test();

    state.regs[5] = 10;
    state.regs[6] = 20;

    // C.ADD x5, x6
    exec_c_add(5, 6, &mut state).unwrap();

    assert_eq!(state.regs[5], 30);
}

#[test]
fn test_c_sub() {
    let mut state = setup_test();

    state.regs[8] = 100;
    state.regs[9] = 30;

    // C.SUB x8, x9
    exec_c_sub(8, 9, &mut state).unwrap();

    assert_eq!(state.regs[8], 70);
}

#[test]
fn test_c_xor() {
    let mut state = setup_test();

    state.regs[8] = 0xFF00;
    state.regs[9] = 0x0F0F;

    // C.XOR x8, x9
    exec_c_xor(8, 9, &mut state).unwrap();

    assert_eq!(state.regs[8], 0xF00F);
}

#[test]
fn test_c_or() {
    let mut state = setup_test();

    state.regs[8] = 0xFF00;
    state.regs[9] = 0x00FF;

    // C.OR x8, x9
    exec_c_or(8, 9, &mut state).unwrap();

    assert_eq!(state.regs[8], 0xFFFF);
}

#[test]
fn test_c_and() {
    let mut state = setup_test();

    state.regs[8] = 0xFF00;
    state.regs[9] = 0x0F0F;

    // C.AND x8, x9
    exec_c_and(8, 9, &mut state).unwrap();

    assert_eq!(state.regs[8], 0x0F00);
}

#[test]
fn c_andi_sign_extends_its_six_bit_immediate() {
    let mut state = setup_test();
    state.regs[8] = 0xFF00;
    // 0x3F is the six-bit encoding of -1.
    exec_c_andi(8, 0x3F, &mut state).unwrap();
    assert_eq!(state.regs[8], 0xFF00);
    state.regs[9] = 0xFF;
    // 0x30 is -16: clears the low four bits.
    exec_c_andi(9, 0x30, &mut state).unwrap();
    assert_eq!(state.regs[9], 0xF0);
}
