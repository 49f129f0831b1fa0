use ruscv_sim::cpu::CoreState;
use ruscv_sim::isa::rv64i::shift::exec_shift;
use ruscv_sim::isa::rv64i::shift::exec_shift_imm;
use ruscv_sim::decode::{DecodedInstruction, Funct3, InstructionFormat, Opcode};
use ruscv_sim::memory::SimpleMemory;

fn create_test_instr_r(
    funct3: Funct3,
    funct7: u8,
    rs1: u8,
    rs2: u8,
    rd: u8,
) -> DecodedInstruction {
    DecodedInstruction {
        raw: 0,
        format: InstructionFormat::RType,
        opcode: Opcode::Op,
        funct3: Some(funct3),
        funct7: Some(funct7),
        rs1: Some(rs1),
        rs2: Some(rs2),
        rs3: None,
        rd: Some(rd),
        imm: None,
        branch_taken: false,
    }
}

fn create_test_instr_i(
    funct3: Funct3,
    funct7: Option<u8>,
    rs1: u8,
    rd: u8,
    imm: u32,
) -> DecodedInstruction {
    DecodedInstruction {
        raw: 0,
        format: InstructionFormat::IType,
        opcode: Opcode::OpImm,
        funct3: Some(funct3),
        funct7,
        rs1: Some(rs1),
        rs2: None,
        rs3: None,
        rd: Some(rd),
        imm: Some(imm),
        branch_taken: false,
    }
}

#[test]
fn test_sll() {
    let mut state = CoreState::default();
    state.regs[1] = 0b0000_0001;
    state.regs[2] = 4;

    let instr = create_test_instr_r(Funct3::Sll, 0, 1, 2, 3);
    let mut mem = SimpleMemory::new(0x1000);

    exec_shift(&instr, &mut state, &mut mem).unwrap();

    assert_eq!(state.regs[3], 16);
}

#[test]
fn test_srl() {
    let mut state = CoreState::default();
    state.regs[1] = 0b1_0000_0000;
    state.regs[2] = 4;

    let instr = create_test_instr_r(Funct3::SrlSra, 0, 1, 2, 3);
    let mut mem = SimpleMemory::new(0x1000);

    exec_shift(&instr, &mut state, &mut mem).unwrap();

    assert_eq!(state.regs[3], 16);
}

#[test]
fn test_srl_with_negative_value() {
    let mut state = CoreState::default();
    state.regs[1] = 0xFFFFFFF0;
    state.regs[2] = 4;

    let instr = create_test_instr_r(Funct3::SrlSra, 0, 1, 2, 3);
    let mut mem = SimpleMemory::new(0x1000);

    exec_shift(&instr, &mut state, &mut mem).unwrap();

    assert_eq!(state.regs[3], 0x0FFFFFFF);
}

#[test]
fn test_sra() {
    let mut state = CoreState::default();
    state.regs[1] = 0xFFFF_FFFF_FFFF_FFF0;
    state.regs[2] = 4;

    let instr = create_test_instr_r(Funct3::SrlSra, 0x20, 1, 2, 3);
    let mut mem = SimpleMemory::new(0x1000);

    exec_shift(&instr, &mut state, &mut mem).unwrap();

    assert_eq!(state.regs[3], 0xFFFF_FFFF_FFFF_FFFF);
    assert_eq!(state.regs[3] as i64, -1);
}

#[test]
fn test_sra_with_positive_value() {
    let mut state = CoreState::default();
    state.regs[1] = 256;
    state.regs[2] = 4;

    let instr = create_test_instr_r(Funct3::SrlSra, 0x20, 1, 2, 3);
    let mut mem = SimpleMemory::new(0x1000);

    exec_shift(&instr, &mut state, &mut mem).unwrap();

    assert_eq!(state.regs[3], 16);
}

#[test]
fn test_slli() {
    let mut state = CoreState::default();
    state.regs[1] = 0b0000_0001;

    let instr = create_test_instr_i(Funct3::Sll, None, 1, 2, 4);
    let mut mem = SimpleMemory::new(0x1000);

    exec_shift_imm(&instr, &mut state, &mut mem).unwrap();

    assert_eq!(state.regs[2], 16);
}

#[test]
fn test_srli() {
    let mut state = CoreState::default();
    state.regs[1] = 0b1_0000_0000;

    let instr = create_test_instr_i(Funct3::SrlSra, Some(0x00), 1, 2, 4);
    let mut mem = SimpleMemory::new(0x1000);

    exec_shift_imm(&instr, &mut state, &mut mem).unwrap();

    assert_eq!(state.regs[2], 16);
}

#[test]
fn test_srai() {
    let mut state = CoreState::default();
    state.regs[1] = 0xFFFF_FFFF_FFFF_FFF0;

    let instr = create_test_instr_i(Funct3::SrlSra, Some(0x20), 1, 2, 4);
    let mut mem = SimpleMemory::new(0x1000);

    exec_shift_imm(&instr, &mut state, &mut mem).unwrap();

    assert_eq!(state.regs[2], 0xFFFF_FFFF_FFFF_FFFF);
    assert_eq!(state.regs[2] as i64, -1);
}

#[test]
fn test_srai_with_positive() {
    let mut state = CoreState::default();
    state.regs[1] = 256;

    let instr = create_test_instr_i(Funct3::SrlSra, Some(0x20), 1, 2, 4);
    let mut mem = SimpleMemory::new(0x1000);

    exec_shift_imm(&instr, &mut state, &mut mem).unwrap();

    assert_eq!(state.regs[2], 16);
}

#[test]
fn test_shamt_masking() {
    let mut state = CoreState::default();
    state.regs[1] = 1;
    // RV64I uses 6-bit shamt mask (0x3F), so 0x28 = 40 means shift by 40
    state.regs[2] = 0x12345628; // lower 6 bits = 0x28 = 40

    let instr = create_test_instr_r(Funct3::Sll, 0, 1, 2, 3);
    let mut mem = SimpleMemory::new(0x1000);

    exec_shift(&instr, &mut state, &mut mem).unwrap();

    assert_eq!(state.regs[3], 1u64.wrapping_shl(40));
}
#[test]
fn shift_test_rd_zero() {
    let mut state = CoreState::default();
    state.regs[1] = 0b0000_0001;
    state.regs[2] = 4;

    let instr = create_test_instr_r(Funct3::Sll, 0, 1, 2, 0);
    let mut mem = SimpleMemory::new(0x1000);

    exec_shift(&instr, &mut state, &mut mem).unwrap();

    assert_eq!(state.regs[0], 0);
}

