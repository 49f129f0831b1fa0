use ruscv_sim::cpu::CoreState;
use ruscv_sim::memory::SimpleMemory;
use ruscv_sim::cpu::PrivilegeMode;
use ruscv_sim::csr::{machine, supervisor};
use ruscv_sim::decode::{DecodedInstruction, InstructionFormat, Opcode};
use ruscv_sim::execute::ExecuteError;
use ruscv_sim::isa::rv64i::system::{exec_mret, exec_sret, exec_system};
fn create_test_instr(imm: u32) -> DecodedInstruction {
    DecodedInstruction {
        raw: 0,
        format: InstructionFormat::IType,
        opcode: Opcode::System,
        funct3: None,
        funct7: None,
        rs1: None,
        rs2: None,
        rs3: None,
        rd: None,
        imm: Some(imm),
        branch_taken: false,
    }
}

fn create_csr_instr(funct3: u8, rd: u8, rs1: u8, csr: u16) -> DecodedInstruction {
    let raw = ((csr as u32) << 20)
        | ((rs1 as u32) << 15)
        | ((funct3 as u32) << 12)
        | ((rd as u32) << 7)
        | 0b111_0011;
    DecodedInstruction {
        raw,
        format: InstructionFormat::IType,
        opcode: Opcode::System,
        funct3: None,
        funct7: None,
        rs1: Some(rs1),
        rs2: None,
        rs3: None,
        rd: Some(rd),
        imm: Some(csr as u32),
        branch_taken: false,
    }
}

#[test]
fn test_ecall() {
    let mut state = CoreState::default();
    let instr = create_test_instr(0);
    let mut mem = SimpleMemory::new(0x1000);

    let result = exec_system(&instr, &mut state, &mut mem);

    assert!(matches!(result, Err(ExecuteError::Ecall)));
}

#[test]
fn test_ebreak() {
    let mut state = CoreState::default();
    let instr = create_test_instr(1);
    let mut mem = SimpleMemory::new(0x1000);

    let result = exec_system(&instr, &mut state, &mut mem);

    assert!(matches!(result, Err(ExecuteError::Ebreak)));
}

#[test]
fn test_csrrw() {
    let mut state = CoreState::default();
    state.regs[5] = 0x1234_5678;

    let instr = create_csr_instr(0b001, 10, 5, machine::MEPC);
    let mut mem = SimpleMemory::new(0x1000);

    let result = exec_system(&instr, &mut state, &mut mem);
    assert!(result.is_ok());

    // Check that MEPC was written with value from x5
    assert_eq!(state.csr.read(machine::MEPC).unwrap(), 0x1234_5678);

    // Check that x10 received the old value (0)
    assert_eq!(state.regs[10], 0);
}

#[test]
fn test_csrrs() {
    let mut state = CoreState::default();
    state.csr.write(machine::MSTATUS, 0x0080).unwrap();
    state.regs[5] = 0x0008;

    let instr = create_csr_instr(0b010, 10, 5, machine::MSTATUS);
    let mut mem = SimpleMemory::new(0x1000);

    let result = exec_system(&instr, &mut state, &mut mem);
    assert!(result.is_ok());

    assert_eq!(state.csr.read(machine::MSTATUS).unwrap(), 0x0088);
    assert_eq!(state.regs[10], 0x0080);
}

#[test]
fn test_csrrc() {
    let mut state = CoreState::default();
    state.csr.write(machine::MSTATUS, 0x0088).unwrap();
    state.regs[5] = 0x0008;

    let instr = create_csr_instr(0b011, 10, 5, machine::MSTATUS);
    let mut mem = SimpleMemory::new(0x1000);

    let result = exec_system(&instr, &mut state, &mut mem);
    assert!(result.is_ok());

    assert_eq!(state.csr.read(machine::MSTATUS).unwrap(), 0x0080);
    assert_eq!(state.regs[10], 0x0088);
}

#[test]
fn test_mret() {
    let mut state = CoreState::default();
    state.csr.write(machine::MEPC, 0x1000).unwrap();
    state.csr.write(machine::MSTATUS, 0x0000_0080).unwrap();

    let instr = DecodedInstruction {
        raw: 0x30200073,
        format: InstructionFormat::RType,
        opcode: Opcode::System,
        funct3: None,
        funct7: Some(0b001_1000),
        rs1: None,
        rs2: Some(0b00010),
        rs3: None,
        rd: None,
        imm: None,
        branch_taken: false,
    };
    let mut mem = SimpleMemory::new(0x1000);

    let result = exec_mret(&instr, &mut state, &mut mem);

    assert!(result.is_ok());
    assert_eq!(result.unwrap(), 0x1000);

    let mstatus = state.csr.read(machine::MSTATUS).unwrap();
    assert_eq!((mstatus >> 3) & 1, 1);
}

#[test]
fn test_sret() {
    let mut state = CoreState {
        privilege: PrivilegeMode::Supervisor,
        ..Default::default()
    };
    state.csr.write(supervisor::SEPC, 0x1000).unwrap();
    state.csr.write(supervisor::SSTATUS, 0x0000_0020).unwrap();

    let instr = DecodedInstruction {
        raw: 0x10200073,
        format: InstructionFormat::RType,
        opcode: Opcode::System,
        funct3: None,
        funct7: Some(0b000_1000),
        rs1: None,
        rs2: Some(0b00010),
        rs3: None,
        rd: None,
        imm: None,
        branch_taken: false,
    };
    let mut mem = SimpleMemory::new(0x1000);

    let result = exec_sret(&instr, &mut state, &mut mem);

    assert!(result.is_ok());
    assert_eq!(result.unwrap(), 0x1000);

    let sstatus = state.csr.read(supervisor::SSTATUS).unwrap();
    assert_eq!((sstatus >> 1) & 1, 1);
}

#[test]
fn test_sret_from_user_fails() {
    let mut state = CoreState {
        privilege: PrivilegeMode::User,
        ..Default::default()
    };

    let instr = DecodedInstruction {
        raw: 0x10200073,
        format: InstructionFormat::RType,
        opcode: Opcode::System,
        funct3: None,
        funct7: Some(0b000_1000),
        rs1: None,
        rs2: Some(0b00010),
        rs3: None,
        rd: None,
        imm: None,
        branch_taken: false,
    };
    let mut mem = SimpleMemory::new(0x1000);

    let result = exec_sret(&instr, &mut state, &mut mem);

    assert!(matches!(result, Err(ExecuteError::InvalidOperation)));
}
