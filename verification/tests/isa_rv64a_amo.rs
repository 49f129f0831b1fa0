use ruscv_sim::hart_amods::AmoOperation;
use ruscv_sim::physical::AmoWidth;
use ruscv_sim::cpu::CoreState;
use ruscv_sim::isa::rv64a::amo::exec_amo_rmw;
use ruscv_sim::isa::rv64a::amo::exec_amoadd;
use ruscv_sim::isa::rv64a::amo::exec_amoand;
use ruscv_sim::isa::rv64a::amo::exec_amomax;
use ruscv_sim::isa::rv64a::amo::exec_amomaxu;
use ruscv_sim::isa::rv64a::amo::exec_amomin;
use ruscv_sim::isa::rv64a::amo::exec_amominu;
use ruscv_sim::isa::rv64a::amo::exec_amoor;
use ruscv_sim::isa::rv64a::amo::exec_amoswap;
use ruscv_sim::isa::rv64a::amo::exec_amoxor;
use ruscv_sim::memory::MemoryInterface;
use ruscv_sim::decode::{DecodedInstruction, Funct3, InstructionFormat, Opcode};
use ruscv_sim::memory::SimpleMemory;

fn create_amo_instr(
    rs1: u8,
    rs2: u8,
    rd: u8,
    funct5: u8,
    _aq: u8,
    _rl: u8,
) -> DecodedInstruction {
    let raw = ((funct5 as u32) << 27)
        | ((rs2 as u32) << 20)
        | ((rs1 as u32) << 15)
        | ((rd as u32) << 7)
        | 0b010_1111;
    DecodedInstruction {
        raw,
        format: InstructionFormat::RType,
        opcode: Opcode::Amo,
        funct3: Some(Funct3::Slt), // W width encoding
        funct7: None,
        rs1: Some(rs1),
        rs2: Some(rs2),
        rs3: None,
        rd: Some(rd),
        imm: None,
        branch_taken: false,
    }
}

// ========================================
// AMOADD Tests
// ========================================

#[test]
fn test_amoadd_basic() {
    let mut state = CoreState::default();
    let mut mem = SimpleMemory::new(0x1000);

    mem.write_word(0x100, 10).unwrap();
    state.regs[1] = 0x100;
    state.regs[2] = 5;

    let instr = create_amo_instr(1, 2, 3, 0b00000, 0, 0);
    let result = exec_amoadd(&instr, &mut state, &mut mem);

    assert!(result.is_ok());
    assert_eq!(state.regs[3], 10); // Returns old value
    assert_eq!(mem.read_word(0x100).unwrap(), 15); // New value
}

#[test]
fn test_amoadd_wrapping() {
    let mut state = CoreState::default();
    let mut mem = SimpleMemory::new(0x1000);

    mem.write_word(0x100, 0xFFFF_FFFF).unwrap();
    state.regs[1] = 0x100;
    state.regs[2] = 2;

    let instr = create_amo_instr(1, 2, 3, 0b00000, 0, 0);
    let result = exec_amoadd(&instr, &mut state, &mut mem);

    assert!(result.is_ok());
    // AMO.W returns 32-bit value sign-extended to 64 bits
    assert_eq!(state.regs[3], 0xFFFF_FFFF_FFFF_FFFF);
    assert_eq!(mem.read_word(0x100).unwrap(), 1);
}

#[test]
fn test_amoadd_zero() {
    let mut state = CoreState::default();
    let mut mem = SimpleMemory::new(0x1000);

    mem.write_word(0x100, 100).unwrap();
    state.regs[1] = 0x100;
    state.regs[2] = 0;

    let instr = create_amo_instr(1, 2, 3, 0b00000, 0, 0);
    let result = exec_amoadd(&instr, &mut state, &mut mem);

    assert!(result.is_ok());
    assert_eq!(state.regs[3], 100);
    assert_eq!(mem.read_word(0x100).unwrap(), 100);
}

// ========================================
// AMOAND Tests
// ========================================

#[test]
fn test_amoand_basic() {
    let mut state = CoreState::default();
    let mut mem = SimpleMemory::new(0x1000);

    mem.write_word(0x100, 0xFF).unwrap();
    state.regs[1] = 0x100;
    state.regs[2] = 0x0F;

    let instr = create_amo_instr(1, 2, 3, 0b01100, 0, 0);
    let result = exec_amoand(&instr, &mut state, &mut mem);

    assert!(result.is_ok());
    assert_eq!(state.regs[3], 0xFF);
    assert_eq!(mem.read_word(0x100).unwrap(), 0x0F);
}

#[test]
fn test_amoand_all_ones() {
    let mut state = CoreState::default();
    let mut mem = SimpleMemory::new(0x1000);

    mem.write_word(0x100, 0xABCD_EF01).unwrap();
    state.regs[1] = 0x100;
    state.regs[2] = 0xFFFF_FFFF;

    let instr = create_amo_instr(1, 2, 3, 0b01100, 0, 0);
    let result = exec_amoand(&instr, &mut state, &mut mem);

    assert!(result.is_ok());
    assert_eq!(state.regs[3], 0xFFFF_FFFF_ABCD_EF01);
    assert_eq!(mem.read_word(0x100).unwrap(), 0xABCD_EF01);
}

// ========================================
// AMOOR Tests
// ========================================

#[test]
fn test_amoor_basic() {
    let mut state = CoreState::default();
    let mut mem = SimpleMemory::new(0x1000);

    mem.write_word(0x100, 0xF0).unwrap();
    state.regs[1] = 0x100;
    state.regs[2] = 0x0F;

    let instr = create_amo_instr(1, 2, 3, 0b01000, 0, 0);
    let result = exec_amoor(&instr, &mut state, &mut mem);

    assert!(result.is_ok());
    assert_eq!(state.regs[3], 0xF0);
    assert_eq!(mem.read_word(0x100).unwrap(), 0xFF);
}

#[test]
fn test_amoor_sign_bit() {
    let mut state = CoreState::default();
    let mut mem = SimpleMemory::new(0x1000);

    mem.write_word(0x100, 0x8000_0000).unwrap();
    state.regs[1] = 0x100;
    state.regs[2] = 0x0000_0001;

    let instr = create_amo_instr(1, 2, 3, 0b01000, 0, 0);
    let result = exec_amoor(&instr, &mut state, &mut mem);

    assert!(result.is_ok());
    assert_eq!(state.regs[3], 0xFFFF_FFFF_8000_0000);
    assert_eq!(mem.read_word(0x100).unwrap(), 0x8000_0001);
}

// ========================================
// AMOXOR Tests
// ========================================

#[test]
fn test_amoxor_basic() {
    let mut state = CoreState::default();
    let mut mem = SimpleMemory::new(0x1000);

    mem.write_word(0x100, 0xAA).unwrap();
    state.regs[1] = 0x100;
    state.regs[2] = 0xFF;

    let instr = create_amo_instr(1, 2, 3, 0b00100, 0, 0);
    let result = exec_amoxor(&instr, &mut state, &mut mem);

    assert!(result.is_ok());
    assert_eq!(state.regs[3], 0xAA);
    assert_eq!(mem.read_word(0x100).unwrap(), 0x55);
}

#[test]
fn test_amoxor_toggle() {
    let mut state = CoreState::default();
    let mut mem = SimpleMemory::new(0x1000);

    mem.write_word(0x100, 0x55).unwrap();
    state.regs[1] = 0x100;
    state.regs[2] = 0xFF;

    let instr = create_amo_instr(1, 2, 3, 0b00100, 0, 0);
    exec_amoxor(&instr, &mut state, &mut mem).unwrap();
    assert_eq!(mem.read_word(0x100).unwrap(), 0xAA);

    let instr2 = create_amo_instr(1, 2, 3, 0b00100, 0, 0);
    exec_amoxor(&instr2, &mut state, &mut mem).unwrap();
    assert_eq!(mem.read_word(0x100).unwrap(), 0x55);
}

// ========================================
// AMOMAX Tests (signed)
// ========================================

#[test]
fn test_amomax_basic() {
    let mut state = CoreState::default();
    let mut mem = SimpleMemory::new(0x1000);

    mem.write_word(0x100, 5).unwrap();
    state.regs[1] = 0x100;
    state.regs[2] = 10;

    let instr = create_amo_instr(1, 2, 3, 0b10100, 0, 0);
    let result = exec_amomax(&instr, &mut state, &mut mem);

    assert!(result.is_ok());
    assert_eq!(state.regs[3], 5);
    assert_eq!(mem.read_word(0x100).unwrap(), 10);
}

#[test]
fn test_amomax_negative() {
    let mut state = CoreState::default();
    let mut mem = SimpleMemory::new(0x1000);

    mem.write_word(0x100, 0xFFFF_FFF6).unwrap(); // -10
    state.regs[1] = 0x100;
    state.regs[2] = 5;

    let instr = create_amo_instr(1, 2, 3, 0b10100, 0, 0);
    let result = exec_amomax(&instr, &mut state, &mut mem);

    assert!(result.is_ok());
    assert_eq!(state.regs[3], 0xFFFF_FFFF_FFFF_FFF6); // -10 sign-extended
    assert_eq!(mem.read_word(0x100).unwrap(), 5); // max(-10, 5) = 5
}

#[test]
fn test_amomax_unsigned_greater_but_signed_smaller() {
    let mut state = CoreState::default();
    let mut mem = SimpleMemory::new(0x1000);

    mem.write_word(0x100, 0x8000_0000).unwrap(); // INT32_MIN
    state.regs[1] = 0x100;
    state.regs[2] = 0x7FFF_FFFF;

    let instr = create_amo_instr(1, 2, 3, 0b10100, 0, 0);
    let result = exec_amomax(&instr, &mut state, &mut mem);

    assert!(result.is_ok());
    assert_eq!(mem.read_word(0x100).unwrap(), 0x7FFF_FFFF);
}

// ========================================
// AMOMIN Tests (signed)
// ========================================

#[test]
fn test_amomin_basic() {
    let mut state = CoreState::default();
    let mut mem = SimpleMemory::new(0x1000);

    mem.write_word(0x100, 5).unwrap();
    state.regs[1] = 0x100;
    state.regs[2] = 10;

    let instr = create_amo_instr(1, 2, 3, 0b10000, 0, 0);
    let result = exec_amomin(&instr, &mut state, &mut mem);

    assert!(result.is_ok());
    assert_eq!(state.regs[3], 5);
    assert_eq!(mem.read_word(0x100).unwrap(), 5);
}

#[test]
fn test_amomin_negative() {
    let mut state = CoreState::default();
    let mut mem = SimpleMemory::new(0x1000);

    mem.write_word(0x100, 0xFFFF_FFF6).unwrap(); // -10
    state.regs[1] = 0x100;
    state.regs[2] = 5;

    let instr = create_amo_instr(1, 2, 3, 0b10000, 0, 0);
    let result = exec_amomin(&instr, &mut state, &mut mem);

    assert!(result.is_ok());
    assert_eq!(mem.read_word(0x100).unwrap(), 0xFFFF_FFF6); // min(-10, 5) = -10
}

// ========================================
// AMOMAXU Tests (unsigned)
// ========================================

#[test]
fn test_amomaxu_basic() {
    let mut state = CoreState::default();
    let mut mem = SimpleMemory::new(0x1000);

    mem.write_word(0x100, 5).unwrap();
    state.regs[1] = 0x100;
    state.regs[2] = 10;

    let instr = create_amo_instr(1, 2, 3, 0b11100, 0, 0);
    let result = exec_amomaxu(&instr, &mut state, &mut mem);

    assert!(result.is_ok());
    assert_eq!(state.regs[3], 5);
    assert_eq!(mem.read_word(0x100).unwrap(), 10);
}

#[test]
fn test_amomaxu_unsigned_comparison() {
    let mut state = CoreState::default();
    let mut mem = SimpleMemory::new(0x1000);

    mem.write_word(0x100, 0xFFFF_FFFF).unwrap(); // large unsigned
    state.regs[1] = 0x100;
    state.regs[2] = 1;

    let instr = create_amo_instr(1, 2, 3, 0b11100, 0, 0);
    let result = exec_amomaxu(&instr, &mut state, &mut mem);

    assert!(result.is_ok());
    assert_eq!(mem.read_word(0x100).unwrap(), 0xFFFF_FFFF);
}

// ========================================
// AMOMINU Tests (unsigned)
// ========================================

#[test]
fn test_amominu_basic() {
    let mut state = CoreState::default();
    let mut mem = SimpleMemory::new(0x1000);

    mem.write_word(0x100, 5).unwrap();
    state.regs[1] = 0x100;
    state.regs[2] = 10;

    let instr = create_amo_instr(1, 2, 3, 0b11000, 0, 0);
    let result = exec_amominu(&instr, &mut state, &mut mem);

    assert!(result.is_ok());
    assert_eq!(state.regs[3], 5);
    assert_eq!(mem.read_word(0x100).unwrap(), 5);
}

#[test]
fn test_amominu_unsigned_comparison() {
    let mut state = CoreState::default();
    let mut mem = SimpleMemory::new(0x1000);

    mem.write_word(0x100, 0xFFFF_FFFF).unwrap(); // large unsigned
    state.regs[1] = 0x100;
    state.regs[2] = 1;

    let instr = create_amo_instr(1, 2, 3, 0b11000, 0, 0);
    let result = exec_amominu(&instr, &mut state, &mut mem);

    assert!(result.is_ok());
    assert_eq!(mem.read_word(0x100).unwrap(), 1); // min(0xFFFFFFFF, 1) = 1
}

// ========================================
// AMOSWAP Tests
// ========================================

#[test]
fn test_amoswap_basic() {
    let mut state = CoreState::default();
    let mut mem = SimpleMemory::new(0x1000);

    mem.write_word(0x100, 10).unwrap();
    state.regs[1] = 0x100;
    state.regs[2] = 6;

    let instr = create_amo_instr(1, 2, 3, 0b00001, 0, 0);
    let result = exec_amoswap(&instr, &mut state, &mut mem);

    assert!(result.is_ok());
    assert_eq!(state.regs[3], 10, "rd receives the old value");
    assert_eq!(mem.read_word(0x100).unwrap(), 6, "memory receives rs2");
}

// ========================================
// Cross-cutting behavior
// ========================================

#[test]
fn test_amo_x0_dest() {
    let mut state = CoreState::default();
    let mut mem = SimpleMemory::new(0x1000);

    mem.write_word(0x100, 10).unwrap();
    state.regs[1] = 0x100;
    state.regs[2] = 5;

    let instr = create_amo_instr(1, 2, 0, 0b00000, 0, 0);
    let result = exec_amoadd(&instr, &mut state, &mut mem);

    assert!(result.is_ok());
    assert_eq!(state.regs[0], 0); // x0 always 0
    assert_eq!(mem.read_word(0x100).unwrap(), 15);
}

#[test]
fn test_amo_returns_original() {
    let mut state = CoreState::default();
    let mut mem = SimpleMemory::new(0x1000);

    mem.write_word(0x100, 42).unwrap();
    state.regs[1] = 0x100;
    state.regs[2] = 8;

    let instr = create_amo_instr(1, 2, 3, 0b00000, 0, 0);
    exec_amoadd(&instr, &mut state, &mut mem).unwrap();
    assert_eq!(state.regs[3], 42);
}

#[test]
fn test_amo_sequence() {
    let mut state = CoreState::default();
    let mut mem = SimpleMemory::new(0x1000);

    mem.write_word(0x100, 100).unwrap();
    state.regs[1] = 0x100;

    state.regs[2] = 10;
    exec_amoadd(
        &create_amo_instr(1, 2, 3, 0b00000, 0, 0),
        &mut state,
        &mut mem,
    )
    .unwrap();
    state.regs[2] = 5;
    exec_amoand(
        &create_amo_instr(1, 2, 4, 0b01100, 0, 0),
        &mut state,
        &mut mem,
    )
    .unwrap();
    state.regs[2] = 3;
    exec_amoor(
        &create_amo_instr(1, 2, 5, 0b01000, 0, 0),
        &mut state,
        &mut mem,
    )
    .unwrap();
    state.regs[2] = 4;
    exec_amoxor(
        &create_amo_instr(1, 2, 6, 0b00100, 0, 0),
        &mut state,
        &mut mem,
    )
    .unwrap();

    // rd receives each operation's old value; the chain is
    // 100 +10 = 110, 110 & 5 = 4, 4 | 3 = 7, 7 ^ 4 = 3.
    assert_eq!(state.regs[3], 100);
    assert_eq!(state.regs[4], 110);
    assert_eq!(state.regs[5], 4);
    assert_eq!(state.regs[6], 7);
    assert_eq!(mem.read_word(0x100).unwrap(), 3);
}

#[test]
fn test_amo_d_variants_operate_full_width() {
    // The generic D-width path: a D read-modify-write touches all eight
    // bytes and returns the full old value (dev-plan §5.3).
    let mut state = CoreState::default();
    let mut mem = SimpleMemory::new(0x1000);

    mem.write_dword(0x108, 0x0000_0001_8000_0002).unwrap();
    state.regs[1] = 0x108;
    state.regs[2] = 1;

    let instr = create_amo_instr(1, 2, 3, 0b00000, 0, 0);
    exec_amo_rmw(
        &instr,
        &mut state,
        &mut mem,
        AmoOperation::Add,
        AmoWidth::Doubleword,
    )
    .unwrap();

    assert_eq!(state.regs[3], 0x0000_0001_8000_0002, "full-width old value");
    assert_eq!(mem.read_dword(0x108).unwrap(), 0x0000_0001_8000_0003);
}
