use ruscv_sim::cpu::CoreState;
use ruscv_sim::isa::rv64i::alu::exec_op;
use ruscv_sim::isa::rv64i::alu::exec_op_imm;
use ruscv_sim::decode::{DecodedInstruction, Funct3, InstructionFormat, Opcode};
use ruscv_sim::memory::SimpleMemory;

fn create_test_instr_r(
    opcode: Opcode,
    funct3: Option<Funct3>,
    funct7: Option<u8>,
    rs1: Option<u8>,
    rs2: Option<u8>,
    rd: Option<u8>,
) -> DecodedInstruction {
    DecodedInstruction {
        raw: 0,
        format: InstructionFormat::RType,
        opcode,
        funct3,
        funct7,
        rs1,
        rs2,
        rs3: None,
        rd,
        imm: None,
        branch_taken: false,
    }
}

fn create_test_instr_i(
    opcode: Opcode,
    funct3: Option<Funct3>,
    rs1: Option<u8>,
    rd: Option<u8>,
    imm: Option<u32>,
) -> DecodedInstruction {
    DecodedInstruction {
        raw: 0,
        format: InstructionFormat::IType,
        opcode,
        funct3,
        funct7: None,
        rs1,
        rs2: None,
        rs3: None,
        rd,
        imm,
        branch_taken: false,
    }
}

#[test]
fn test_add() {
    let mut state = CoreState::default();
    state.regs[1] = 10;
    state.regs[2] = 20;

    let instr = create_test_instr_r(
        Opcode::Op,
        Some(Funct3::AddSub),
        Some(0),
        Some(1),
        Some(2),
        Some(3),
    );
    let mut mem = SimpleMemory::new(0x1000);

    exec_op(&instr, &mut state, &mut mem).unwrap();

    assert_eq!(state.regs[3], 30);
}

#[test]
fn test_sub() {
    let mut state = CoreState::default();
    state.regs[1] = 20;
    state.regs[2] = 10;

    let instr = create_test_instr_r(
        Opcode::Op,
        Some(Funct3::AddSub),
        Some(0x20),
        Some(1),
        Some(2),
        Some(3),
    );
    let mut mem = SimpleMemory::new(0x1000);

    exec_op(&instr, &mut state, &mut mem).unwrap();

    assert_eq!(state.regs[3], 10);
}

#[test]
fn test_slt() {
    let mut state = CoreState::default();
    state.regs[1] = 3;
    state.regs[2] = 5;

    let instr = create_test_instr_r(
        Opcode::Op,
        Some(Funct3::Slt),
        Some(0),
        Some(1),
        Some(2),
        Some(3),
    );
    let mut mem = SimpleMemory::new(0x1000);

    exec_op(&instr, &mut state, &mut mem).unwrap();

    assert_eq!(state.regs[3], 1);
}

#[test]
fn test_sltu() {
    let mut state = CoreState::default();
    state.regs[1] = 3;
    state.regs[2] = 5;

    let instr = create_test_instr_r(
        Opcode::Op,
        Some(Funct3::Sltu),
        Some(0),
        Some(1),
        Some(2),
        Some(3),
    );
    let mut mem = SimpleMemory::new(0x1000);

    exec_op(&instr, &mut state, &mut mem).unwrap();

    assert_eq!(state.regs[3], 1);
}

#[test]
fn test_xor() {
    let mut state = CoreState::default();
    state.regs[1] = 0b1100_0000;
    state.regs[2] = 0b1010_1010;

    let instr = create_test_instr_r(
        Opcode::Op,
        Some(Funct3::Xor),
        Some(0),
        Some(1),
        Some(2),
        Some(3),
    );
    let mut mem = SimpleMemory::new(0x1000);

    exec_op(&instr, &mut state, &mut mem).unwrap();

    assert_eq!(state.regs[3], 0b0110_1010);
}

#[test]
fn test_or() {
    let mut state = CoreState::default();
    state.regs[1] = 0b1100_0000;
    state.regs[2] = 0b1010_1010;

    let instr = create_test_instr_r(
        Opcode::Op,
        Some(Funct3::Or),
        Some(0),
        Some(1),
        Some(2),
        Some(3),
    );
    let mut mem = SimpleMemory::new(0x1000);

    exec_op(&instr, &mut state, &mut mem).unwrap();

    assert_eq!(state.regs[3], 0b1110_1010);
}

#[test]
fn test_and() {
    let mut state = CoreState::default();
    state.regs[1] = 0b1111_1111_0000_0000;
    state.regs[2] = 0b1010_1010_1010_1010;

    let instr = create_test_instr_r(
        Opcode::Op,
        Some(Funct3::And),
        Some(0),
        Some(1),
        Some(2),
        Some(3),
    );
    let mut mem = SimpleMemory::new(0x1000);

    exec_op(&instr, &mut state, &mut mem).unwrap();

    assert_eq!(state.regs[3], 0xAA00);
}

#[test]
fn test_addi() {
    let mut state = CoreState::default();
    state.regs[1] = 10;

    let instr = create_test_instr_i(
        Opcode::OpImm,
        Some(Funct3::AddSub),
        Some(1),
        Some(2),
        Some(5),
    );
    let mut mem = SimpleMemory::new(0x1000);

    exec_op_imm(&instr, &mut state, &mut mem).unwrap();

    assert_eq!(state.regs[2], 15);
}

#[test]
fn test_addi_negative() {
    let mut state = CoreState::default();
    state.regs[1] = 10;

    let instr = create_test_instr_i(
        Opcode::OpImm,
        Some(Funct3::AddSub),
        Some(1),
        Some(2),
        Some((-3i32) as u32),
    );
    let mut mem = SimpleMemory::new(0x1000);

    exec_op_imm(&instr, &mut state, &mut mem).unwrap();

    assert_eq!(state.regs[2] as i32, 7);
}

#[test]
fn test_slti() {
    let mut state = CoreState::default();
    state.regs[1] = 3;

    let instr =
        create_test_instr_i(Opcode::OpImm, Some(Funct3::Slt), Some(1), Some(2), Some(5));
    let mut mem = SimpleMemory::new(0x1000);

    exec_op_imm(&instr, &mut state, &mut mem).unwrap();

    assert_eq!(state.regs[2], 1);
}

#[test]
fn test_sltiu() {
    let mut state = CoreState::default();
    state.regs[1] = 3;

    let instr =
        create_test_instr_i(Opcode::OpImm, Some(Funct3::Sltu), Some(1), Some(2), Some(5));
    let mut mem = SimpleMemory::new(0x1000);

    exec_op_imm(&instr, &mut state, &mut mem).unwrap();

    assert_eq!(state.regs[2], 1);
}

#[test]
fn test_xori() {
    let mut state = CoreState::default();
    state.regs[1] = 0b1100_0000;

    let instr = create_test_instr_i(
        Opcode::OpImm,
        Some(Funct3::Xor),
        Some(1),
        Some(2),
        Some(0b1010_1010),
    );
    let mut mem = SimpleMemory::new(0x1000);

    exec_op_imm(&instr, &mut state, &mut mem).unwrap();

    assert_eq!(state.regs[2], 0b0110_1010);
}

#[test]
fn test_ori() {
    let mut state = CoreState::default();
    state.regs[1] = 0b1100_0000;

    let instr = create_test_instr_i(
        Opcode::OpImm,
        Some(Funct3::Or),
        Some(1),
        Some(2),
        Some(0b1010_1010),
    );
    let mut mem = SimpleMemory::new(0x1000);

    exec_op_imm(&instr, &mut state, &mut mem).unwrap();

    assert_eq!(state.regs[2], 0b1110_1010);
}

#[test]
fn test_andi() {
    let mut state = CoreState::default();
    state.regs[1] = 0x0000_00FF;

    let instr = create_test_instr_i(
        Opcode::OpImm,
        Some(Funct3::And),
        Some(1),
        Some(2),
        Some(0x0AA),
    );
    let mut mem = SimpleMemory::new(0x1000);

    exec_op_imm(&instr, &mut state, &mut mem).unwrap();

    assert_eq!(state.regs[2], 0xAA);
}

#[test]
fn alu_test_rd_zero() {
    let mut state = CoreState::default();
    state.regs[1] = 10;
    state.regs[2] = 20;

    let instr = create_test_instr_r(
        Opcode::Op,
        Some(Funct3::AddSub),
        Some(0),
        Some(1),
        Some(2),
        Some(0),
    );
    let mut mem = SimpleMemory::new(0x1000);

    exec_op(&instr, &mut state, &mut mem).unwrap();

    assert_eq!(state.regs[0], 0);
}
