use ruscv_sim::execute::ExecuteError;
use ruscv_sim::isa::rv64c::c2_move::exec_c_ebreak;
use ruscv_sim::isa::rv64c::c2_move::exec_c_jalr;
use ruscv_sim::isa::rv64c::c2_move::exec_c_jr;
use ruscv_sim::cpu::CoreState;

fn setup_test() -> CoreState {
    CoreState::default()
}

#[test]
fn test_c_jr() {
    let mut state = setup_test();

    // Set up jump target in x5
    state.regs[5] = 0x1000;
    state.pc = 0x100; // Current PC

    // C.JR x5
    exec_c_jr(5, &mut state).unwrap();

    // PC should be updated to target
    assert_eq!(state.pc, 0x1000);
}

#[test]
fn test_c_jr_x0_fails() {
    let mut state = setup_test();

    // C.JR x0 should fail
    let result = exec_c_jr(0, &mut state);
    assert!(result.is_err());
}

#[test]
fn test_c_jr_misaligned() {
    let mut state = setup_test();

    // Set up misaligned jump target in x5
    state.regs[5] = 0x1001;

    // C.JR x5 should fail due to misalignment
    let result = exec_c_jr(5, &mut state);
    assert!(result.is_err());
}

#[test]
fn test_c_jalr() {
    let mut state = setup_test();

    // Set up jump target in x5
    state.regs[5] = 0x2000;
    state.pc = 0x100; // Current PC

    // C.JALR x5
    exec_c_jalr(5, &mut state).unwrap();

    // PC should be updated to target
    assert_eq!(state.pc, 0x2000);
    // Return address should be saved in x1 (ra)
    assert_eq!(state.regs[1], 0x102); // PC + 2
}

#[test]
fn test_c_jalr_x0_fails() {
    let mut state = setup_test();

    // C.JALR x0 should fail
    let result = exec_c_jalr(0, &mut state);
    assert!(result.is_err());
}

#[test]
fn test_c_jalr_saves_return_address() {
    let mut state = setup_test();

    // Set up jump target
    state.regs[10] = 0x3000;
    state.pc = 0x500;

    // C.JALR x10
    exec_c_jalr(10, &mut state).unwrap();

    // Check return address (PC + 2)
    assert_eq!(state.regs[1], 0x502);
}

#[test]
fn test_c_ebreak() {
    let mut state = setup_test();

    // C.EBREAK should return Ebreak error
    let result = exec_c_ebreak(&mut state);
    assert!(matches!(result, Err(ExecuteError::Ebreak)));
}
