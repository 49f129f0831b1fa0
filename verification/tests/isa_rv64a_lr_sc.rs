use ruscv_sim::cpu::CoreState;
use ruscv_sim::memory::MemoryError;
use ruscv_sim::memory::MemoryInterface;
use ruscv_sim::physical::PhysicalWidth;
use ruscv_sim::isa::rv64a::lr_sc::ReservationSet;
use ruscv_sim::isa::rv64a::lr_sc::exec_lr;
use ruscv_sim::isa::rv64a::lr_sc::exec_lr_w;
use ruscv_sim::isa::rv64a::lr_sc::exec_sc;
use ruscv_sim::isa::rv64a::lr_sc::exec_sc_w;
use ruscv_sim::decode::{DecodedInstruction, Funct3, InstructionFormat, Opcode};
use ruscv_sim::memory::SimpleMemory;

fn create_instr(rs1: u8, rs2: u8, rd: u8, funct5: u8, funct3: Funct3) -> DecodedInstruction {
    let raw = ((funct5 as u32) << 27)
        | ((rs2 as u32) << 20)
        | ((rs1 as u32) << 15)
        | ((funct3 as u32) << 12)
        | ((rd as u32) << 7)
        | 0b010_1111;
    DecodedInstruction {
        raw,
        format: InstructionFormat::RType,
        opcode: Opcode::Amo,
        funct3: Some(funct3),
        funct7: None,
        rs1: Some(rs1),
        rs2: Some(rs2),
        rs3: None,
        rd: Some(rd),
        imm: None,
        branch_taken: false,
    }
}

fn lr_w(rs1: u8, rd: u8) -> DecodedInstruction {
    create_instr(rs1, 0, rd, 0b00010, Funct3::Slt)
}

fn lr_d(rs1: u8, rd: u8) -> DecodedInstruction {
    create_instr(rs1, 0, rd, 0b00010, Funct3::Sltu)
}

fn sc_w(rs1: u8, rs2: u8, rd: u8) -> DecodedInstruction {
    create_instr(rs1, rs2, rd, 0b00011, Funct3::Slt)
}

fn sc_d(rs1: u8, rs2: u8, rd: u8) -> DecodedInstruction {
    create_instr(rs1, rs2, rd, 0b00011, Funct3::Sltu)
}

fn reserved_span(state: &CoreState) -> Option<(u64, u8)> {
    state
        .reservation
        .as_ref()
        .map(|record| (record.reserved.paddr, record.reserved.width.bytes() as u8))
}

#[test]
fn test_lr_w_reads_sign_extended_word_and_reserves_four_bytes() {
    let mut state = CoreState::default();
    let mut mem = SimpleMemory::new(0x1000);
    mem.write_dword(0x100, 0x1234_5678_8000_0001).unwrap();
    state.regs[1] = 0x100;

    exec_lr_w(&lr_w(1, 2), &mut state, &mut mem).unwrap();

    assert_eq!(state.regs[2], 0xFFFF_FFFF_8000_0001);
    assert_eq!(reserved_span(&state), Some((0x100, 4)));
}

#[test]
fn test_lr_d_reads_full_dword_and_reserves_eight_bytes() {
    let mut state = CoreState::default();
    let mut mem = SimpleMemory::new(0x1000);
    mem.write_dword(0x108, 0x1234_5678_9abc_def0).unwrap();
    state.regs[1] = 0x108;

    exec_lr(&lr_d(1, 2), &mut state, &mut mem).unwrap();

    assert_eq!(state.regs[2], 0x1234_5678_9abc_def0);
    assert_eq!(reserved_span(&state), Some((0x108, 8)));
}

#[test]
fn test_lr_replaces_the_prior_reservation() {
    let mut state = CoreState::default();
    let mut mem = SimpleMemory::new(0x1000);
    mem.write_dword(0x100, 1).unwrap();
    mem.write_dword(0x108, 2).unwrap();
    state.regs[1] = 0x100;
    state.regs[3] = 0x108;

    exec_lr(&lr_d(1, 2), &mut state, &mut mem).unwrap();
    exec_lr(&lr_d(3, 4), &mut state, &mut mem).unwrap();

    assert_eq!(reserved_span(&state), Some((0x108, 8)));
}

#[test]
fn test_faulting_lr_preserves_the_prior_reservation() {
    let mut state = CoreState::default();
    let mut mem = SimpleMemory::new(0x1000);
    mem.write_dword(0x100, 1).unwrap();
    state.regs[1] = 0x100;
    state.regs[3] = 0x8000; // beyond the 0x1000-sized memory

    exec_lr(&lr_d(1, 2), &mut state, &mut mem).unwrap();
    let outcome = exec_lr(&lr_d(3, 4), &mut state, &mut mem);

    assert!(outcome.is_err(), "the out-of-range LR must fault");
    assert_eq!(
        reserved_span(&state),
        Some((0x100, 8)),
        "a faulting LR establishes no new reservation and keeps the prior one"
    );
}

#[test]
fn test_sc_w_success_writes_word_and_consumes() {
    let mut state = CoreState::default();
    let mut mem = SimpleMemory::new(0x1000);
    mem.write_dword(0x300, 0).unwrap();
    state.regs[1] = 0x300;
    state.regs[3] = 0xABCD_EFFF;

    exec_lr_w(&lr_w(1, 2), &mut state, &mut mem).unwrap();
    exec_sc_w(&sc_w(1, 3, 4), &mut state, &mut mem).unwrap();

    assert_eq!(state.regs[4], 0);
    assert_eq!(mem.read_word(0x300).unwrap(), 0xABCD_EFFF);
    assert_eq!(
        reserved_span(&state),
        None,
        "an executed SC consumes the reservation"
    );
}

#[test]
fn test_sc_d_success_writes_dword_and_consumes() {
    let mut state = CoreState::default();
    let mut mem = SimpleMemory::new(0x1000);
    mem.write_dword(0x308, 0).unwrap();
    state.regs[1] = 0x308;
    state.regs[3] = 0x1234_5678_9abc_def0;

    exec_lr(&lr_d(1, 2), &mut state, &mut mem).unwrap();
    exec_sc(&sc_d(1, 3, 4), &mut state, &mut mem).unwrap();

    assert_eq!(state.regs[4], 0);
    assert_eq!(mem.read_dword(0x308).unwrap(), 0x1234_5678_9abc_def0);
    assert_eq!(reserved_span(&state), None);
}

#[test]
fn test_sc_without_reservation_fails_with_rd_1_and_no_write() {
    let mut state = CoreState::default();
    let mut mem = SimpleMemory::new(0x1000);
    mem.write_dword(0x400, 0x55).unwrap();
    state.regs[1] = 0x400;
    state.regs[2] = 0xaa;

    exec_sc_w(&sc_w(1, 2, 3), &mut state, &mut mem).unwrap();

    assert_eq!(state.regs[3], 1);
    assert_eq!(mem.read_dword(0x400).unwrap(), 0x55);
}

#[test]
fn test_sc_outside_the_reserved_span_fails_with_rd_1() {
    let mut state = CoreState::default();
    let mut mem = SimpleMemory::new(0x1000);
    mem.write_dword(0x500, 1).unwrap();
    mem.write_dword(0x508, 3).unwrap();
    state.regs[1] = 0x500;
    state.regs[2] = 9;

    exec_lr_w(&lr_w(1, 5), &mut state, &mut mem).unwrap();
    state.regs[1] = 0x508;
    exec_sc_w(&sc_w(1, 2, 3), &mut state, &mut mem).unwrap();

    assert_eq!(
        state.regs[3], 1,
        "a span the reservation does not cover fails"
    );
    assert_eq!(mem.read_dword(0x508).unwrap(), 3);
    assert_eq!(reserved_span(&state), None, "the SC consumed it");
}

#[test]
fn test_sc_span_containment_crosses_widths_both_directions() {
    // LR.W@p then SC.D@p: the 8-byte SC span is not contained in the
    // 4-byte reservation, so the SC fails (approved span containment).
    let mut state = CoreState::default();
    let mut mem = SimpleMemory::new(0x1000);
    mem.write_dword(0x600, 0).unwrap();
    state.regs[1] = 0x600;
    state.regs[3] = 0xee;
    exec_lr_w(&lr_w(1, 2), &mut state, &mut mem).unwrap();
    exec_sc(&sc_d(1, 3, 4), &mut state, &mut mem).unwrap();
    assert_eq!(state.regs[4], 1);
    assert_eq!(mem.read_dword(0x600).unwrap(), 0);

    // LR.D@p then SC.W@(p+4): the 4-byte span is inside the reserved
    // dword, so the conditional write succeeds.
    let mut state = CoreState::default();
    let mut mem = SimpleMemory::new(0x1000);
    mem.write_dword(0x600, 0).unwrap();
    state.regs[1] = 0x600;
    state.regs[3] = 0x66;
    exec_lr(&lr_d(1, 2), &mut state, &mut mem).unwrap();
    state.regs[1] = 0x604;
    exec_sc_w(&sc_w(1, 3, 4), &mut state, &mut mem).unwrap();
    assert_eq!(state.regs[4], 0);
    assert_eq!(mem.read_word(0x604).unwrap(), 0x66);
}



#[test]
fn test_lr_sc_x0_dest_and_separate_harts() {
    let mut state = CoreState::default();
    let mut mem = SimpleMemory::new(0x1000);
    mem.write_dword(0x800, 0x1234_5678).unwrap();
    state.regs[1] = 0x800;

    // rd = x0 suppresses only the register write.
    exec_lr_w(&lr_w(1, 0), &mut state, &mut mem).unwrap();
    assert_eq!(state.regs[0], 0);
    assert_eq!(reserved_span(&state), Some((0x800, 4)));

    // A different Hart's state does not share this reservation.
    let mut other = CoreState::default();
    other.regs[1] = 0x800;
    other.regs[3] = 7;
    exec_sc_w(&sc_w(1, 3, 4), &mut other, &mut mem).unwrap();
    assert_eq!(other.regs[4], 1, "reservations are per-Hart");
    assert_eq!(mem.read_dword(0x800).unwrap(), 0x1234_5678);

    // This Hart's own SC still succeeds afterwards.
    state.regs[3] = 7;
    exec_sc_w(&sc_w(1, 3, 4), &mut state, &mut mem).unwrap();
    assert_eq!(state.regs[4], 0);
    assert_eq!(mem.read_dword(0x800).unwrap(), 7);
}

#[test]
fn faulting_sc_keeps_the_reservation_and_writes_no_register() {
    let mut state = CoreState::default();
    let mut mem = SimpleMemory::new(16);
    state.regs[1] = 0x100; // outside the 16 bytes of memory
    state.regs[2] = 0xDEAD;
    state.regs[3] = 7;
    state.reservation = Some(ReservationSet::new(0x100, PhysicalWidth::Doubleword, None));
    let r = exec_sc(&sc_d(1, 2, 3), &mut state, &mut mem);
    assert!(matches!(r, Err(_)));
    assert_eq!(reserved_span(&state), Some((0x100, 8)));
    assert_eq!(state.regs[3], 7);
}

#[test]
fn a_retained_reservation_lets_a_later_sc_succeed() {
    let mut state = CoreState::default();
    let mut failing = SimpleMemory::new(16);
    state.regs[1] = 0x100;
    state.regs[2] = 0xDEAD;
    state.regs[3] = 7;
    state.reservation = Some(ReservationSet::new(0x100, PhysicalWidth::Doubleword, None));
    // The write faults: the reservation stays and rd keeps its value.
    assert!(exec_sc(&sc_d(1, 2, 3), &mut state, &mut failing).is_err());
    assert_eq!(reserved_span(&state), Some((0x100, 8)));
    assert_eq!(state.regs[3], 7);
    // The same SC against memory that takes the write then succeeds.
    let mut mem = SimpleMemory::new(0x1000);
    exec_sc(&sc_d(1, 2, 3), &mut state, &mut mem).unwrap();
    assert_eq!(state.regs[3], 0);
    assert_eq!(mem.read_dword(0x100).unwrap(), 0xDEAD);
    assert!(state.reservation.is_none());
}
