use ruscv_sim::isa::rv64i::execute;
use ruscv_sim::cpu::CoreState;
use ruscv_sim::decode::{DecodedInstruction, Funct3, InstructionFormat, Opcode};
use ruscv_sim::memory::SimpleMemory;

#[test]
fn test_execute_lui() {
    let mut state = CoreState::default();
    let instr = DecodedInstruction {
        raw: 0,
        format: InstructionFormat::UType,
        opcode: Opcode::Lui,
        funct3: None,
        funct7: None,
        rs1: None,
        rs2: None,
        rs3: None,
        rd: Some(1),
        imm: Some(0x12345000),
        branch_taken: false,
    };
    let mut mem = SimpleMemory::new(0x1000);

    execute(&instr, &mut state, &mut mem).unwrap();

    assert_eq!(state.regs[1], 0x12345000);
}

#[test]
fn test_execute_addi() {
    let mut state = CoreState::default();
    state.regs[1] = 10;
    let instr = DecodedInstruction {
        raw: 0,
        format: InstructionFormat::IType,
        opcode: Opcode::OpImm,
        funct3: Some(Funct3::AddSub),
        funct7: None,
        rs1: Some(1),
        rs2: None,
        rs3: None,
        rd: Some(2),
        imm: Some(5),
        branch_taken: false,
    };
    let mut mem = SimpleMemory::new(0x1000);

    execute(&instr, &mut state, &mut mem).unwrap();

    assert_eq!(state.regs[2], 15);
}

#[test]
fn test_execute_add() {
    let mut state = CoreState::default();
    state.regs[1] = 10;
    state.regs[2] = 20;
    let instr = DecodedInstruction {
        raw: 0,
        format: InstructionFormat::RType,
        opcode: Opcode::Op,
        funct3: Some(Funct3::AddSub),
        funct7: Some(0),
        rs1: Some(1),
        rs2: Some(2),
        rs3: None,
        rd: Some(3),
        imm: None,
        branch_taken: false,
    };
    let mut mem = SimpleMemory::new(0x1000);

    execute(&instr, &mut state, &mut mem).unwrap();

    assert_eq!(state.regs[3], 30);
}
