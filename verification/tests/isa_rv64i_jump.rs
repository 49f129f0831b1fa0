use ruscv_sim::cpu::CoreState;
use ruscv_sim::isa::rv64i::jump::{exec_jal, exec_jalr};
use ruscv_sim::decode::{DecodedInstruction, InstructionFormat, Opcode};
use ruscv_sim::memory::SimpleMemory;

fn create_test_instr_jal(rd: u8, imm: u32) -> DecodedInstruction {
    DecodedInstruction {
        raw: 0,
        format: InstructionFormat::JType,
        opcode: Opcode::Jal,
        funct3: None,
        funct7: None,
        rs1: None,
        rs2: None,
        rs3: None,
        rd: Some(rd),
        imm: Some(imm),
        branch_taken: false,
    }
}

fn create_test_instr_jalr(rd: u8, rs1: u8, imm: u32) -> DecodedInstruction {
    DecodedInstruction {
        raw: 0,
        format: InstructionFormat::IType,
        opcode: Opcode::Jalr,
        funct3: None,
        funct7: None,
        rs1: Some(rs1),
        rs2: None,
        rs3: None,
        rd: Some(rd),
        imm: Some(imm),
        branch_taken: false,
    }
}







#[test]
fn test_jalr_basic() {
    let mut state = CoreState::default();
    state.regs[1] = 0x2000;
    let instr = create_test_instr_jalr(2, 1, 0x10);
    let mut mem = SimpleMemory::new(0x1000);

    exec_jalr(&instr, &mut state, &mut mem).unwrap();

    assert_eq!(state.regs[2], 4);
    assert_eq!(state.pc, 0x2010);
}

#[test]
fn test_jalr_no_link() {
    let mut state = CoreState::default();
    state.regs[1] = 0x1000;
    let instr = create_test_instr_jalr(0, 1, 0);
    let mut mem = SimpleMemory::new(0x1000);

    exec_jalr(&instr, &mut state, &mut mem).unwrap();

    assert_eq!(state.regs[0], 0);
    assert_eq!(state.pc, 0x1000);
}

#[test]
fn test_jalr_alignment() {
    let mut state = CoreState::default();
    state.regs[1] = 0x2001; // Odd address
    let instr = create_test_instr_jalr(2, 1, 0);
    let mut mem = SimpleMemory::new(0x1000);

    exec_jalr(&instr, &mut state, &mut mem).unwrap();

    // LSB should be cleared
    assert_eq!(state.pc, 0x2000);
}

#[test]
fn test_jalr_large_offset() {
    let mut state = CoreState {
        pc: 0x10000,
        ..Default::default()
    };
    state.regs[1] = 0x0000_FFFF_FFFF_F000;
    let instr = create_test_instr_jalr(3, 1, 0x100);
    let mut mem = SimpleMemory::new(0x1000);

    exec_jalr(&instr, &mut state, &mut mem).unwrap();

    assert_eq!(state.regs[3], 0x10004);
    assert_eq!(state.pc, 0x0000_FFFF_FFFF_F100);
}

#[test]
fn test_jalr_negative_offset() {
    let mut state = CoreState {
        pc: 0x1000,
        ..Default::default()
    };
    state.regs[1] = 0x2000;
    let instr = create_test_instr_jalr(2, 1, (-256i32) as u32);
    let mut mem = SimpleMemory::new(0x1000);

    exec_jalr(&instr, &mut state, &mut mem).unwrap();

    assert_eq!(state.regs[2], 0x1004);
    assert_eq!(state.pc, 0x1F00);
}
#[test]
fn test_jal_basic() {
    let mut state = CoreState::default();
    let instr = create_test_instr_jal(1, 4);
    let mut mem = SimpleMemory::new(0x1000);

    exec_jal(&instr, &mut state, &mut mem).unwrap();

    assert_eq!(state.regs[1], 4);
    assert_eq!(state.pc, 4);
}

#[test]
fn test_jal_with_offset() {
    let mut state = CoreState {
        pc: 0x1000,
        ..Default::default()
    };
    let instr = create_test_instr_jal(2, 0x200);
    let mut mem = SimpleMemory::new(0x1000);

    exec_jal(&instr, &mut state, &mut mem).unwrap();

    assert_eq!(state.regs[2], 0x1004);
    assert_eq!(state.pc, 0x1200);
}

#[test]
fn test_jal_rd_zero() {
    let mut state = CoreState::default();
    let instr = create_test_instr_jal(0, 4);
    let mut mem = SimpleMemory::new(0x1000);

    exec_jal(&instr, &mut state, &mut mem).unwrap();

    assert_eq!(state.regs[0], 0);
    assert_eq!(state.pc, 4);
}

