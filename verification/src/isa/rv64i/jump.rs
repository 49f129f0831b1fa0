//! RV64I unconditional jumps: JAL and JALR.
use vstd::prelude::*;
use crate::arith::{
    lemma_sign_extensions, lemma_word_bits, sext12, sext21, sign_extend_12, sign_extend_21, signed64,
};
use crate::isa::rv64i::alu::signed_imm12;
use crate::cpu::{CoreState, reg_write, same_but_regs_pc};
use crate::decode::{DecodedInstruction, decode_spec, jal_encoding, lemma_jal_offset_round_trip};
use crate::execute::ExecuteError;
use crate::memory::SimpleMemory;

verus! {

/// What `exec_jal` leaves in the state and the memory, and what it returns.
pub open spec fn jal_post(
    instr: DecodedInstruction,
    s0: CoreState,
    s1: CoreState,
    m0: SimpleMemory,
    m1: SimpleMemory,
    r: Result<(), ExecuteError>,
) -> bool {
    &&& m1 == m0
    &&& same_but_regs_pc(s0, s1)
    &&& match (instr.rd, instr.imm) {
        (Some(rd), Some(imm)) => {
                    &&& r is Ok
                    &&& s1.regs@ == reg_write(
                s0.regs@,
                rd,
                s0.pc.wrapping_add(4),
            )
                    &&& s1.pc == s0.pc.wrapping_add(sext21(imm))
                    &&& s1.branch_taken
        },
        _ => r == Err::<(), ExecuteError>(ExecuteError::InvalidOperation) && s1
            == s0,
    }
}

/// Executes JAL: `rd` receives pc + 4 and the pc moves by the sign-extended
/// 21-bit offset.
pub fn exec_jal(instr: &DecodedInstruction, state: &mut CoreState, _mem: &mut SimpleMemory) -> (r:
    Result<(), ExecuteError>)
    requires
        instr.wf(),
    ensures
        jal_post(*instr, *old(state), *final(state), *old(_mem), *final(_mem), r),
{
    let (rd, imm) = match (instr.rd, instr.imm) {
        (Some(rd), Some(imm)) => (rd, imm),
        _ => return Err(ExecuteError::InvalidOperation),
    };
    let return_addr = state.pc.wrapping_add(4);
    let target = state.pc.wrapping_add(sign_extend_21(imm));
    state.write_reg(rd, return_addr);
    state.pc = target;
    state.branch_taken = true;
    Ok(())
}

/// Executing the decoded J-type encoding of an even offset in
/// [-2^20, 2^20) moves the pc by exactly that offset, modulo 2^64, and
/// links the address of the next instruction into `rd`.
pub proof fn lemma_jal_moves_pc_by_offset(
    offset: int,
    rd: u8,
    s0: CoreState,
    s1: CoreState,
    m0: SimpleMemory,
    m1: SimpleMemory,
    r: Result<(), ExecuteError>,
)
    requires
        -0x10_0000 <= offset < 0x10_0000,
        offset % 2 == 0,
        rd < 32,
        jal_post(decode_spec(jal_encoding(offset, rd))->Ok_0, s0, s1, m0, m1, r),
    ensures
        r is Ok,
        s1.pc as int == (s0.pc as int + offset) % 0x1_0000_0000_0000_0000,
        s1.regs@ == reg_write(s0.regs@, rd, s0.pc.wrapping_add(4)),
        s1.branch_taken,
        m1 == m0,
{
    lemma_jal_offset_round_trip(offset, rd);
    let d = decode_spec(jal_encoding(offset, rd))->Ok_0;
    let e = sext21(d.imm->0);
    assert(signed64(e) == offset);
    if offset < 0 {
        assert(e as int == offset + 0x1_0000_0000_0000_0000);
    }
}

/// What `exec_jalr` leaves in the state and the memory, and what it returns.
pub open spec fn jalr_post(
    instr: DecodedInstruction,
    s0: CoreState,
    s1: CoreState,
    m0: SimpleMemory,
    m1: SimpleMemory,
    r: Result<(), ExecuteError>,
) -> bool {
    &&& m1 == m0
    &&& same_but_regs_pc(s0, s1)
    &&& match (instr.rd, instr.rs1, instr.imm) {
        (Some(rd), Some(rs1), Some(imm)) => {
                    &&& r is Ok
                    &&& s1.regs@ == reg_write(
                s0.regs@,
                rd,
                s0.pc.wrapping_add(4),
            )
                    &&& s1.pc == s0.regs@[rs1 as int].wrapping_add(sext12(imm))
                & !1u64
                    &&& s1.branch_taken
        },
        _ => r == Err::<(), ExecuteError>(ExecuteError::InvalidOperation) && s1
            == s0,
    }
}

/// Executes JALR: `rd` receives pc + 4 and the pc becomes `rs1` plus the
/// sign-extended 12-bit immediate with bit 0 cleared (`rs1` is read before
/// `rd` is written).
pub fn exec_jalr(instr: &DecodedInstruction, state: &mut CoreState, _mem: &mut SimpleMemory) -> (r:
    Result<(), ExecuteError>)
    requires
        instr.wf(),
    ensures
        jalr_post(*instr, *old(state), *final(state), *old(_mem), *final(_mem), r),
{
    let (rd, rs1, imm) = match (instr.rd, instr.rs1, instr.imm) {
        (Some(rd), Some(rs1), Some(imm)) => (rd, rs1, imm),
        _ => return Err(ExecuteError::InvalidOperation),
    };
    let return_addr = state.pc.wrapping_add(4);
    let target = state.regs[rs1 as usize].wrapping_add(sign_extend_12(imm)) & !1u64;
    state.write_reg(rd, return_addr);
    state.pc = target;
    state.branch_taken = true;
    Ok(())
}

/// JALR jumps to `rs1` plus the offset read as a 12-bit two's-complement
/// number, modulo 2^64, with the lowest bit cleared: the target is even,
/// and is that sum or one below it.
pub proof fn lemma_jalr_target(
    instr: DecodedInstruction,
    s0: CoreState,
    s1: CoreState,
    m0: SimpleMemory,
    m1: SimpleMemory,
    r: Result<(), ExecuteError>,
)
    requires
        jalr_post(instr, s0, s1, m0, m1, r),
        instr.rd is Some,
        instr.rs1 is Some,
        instr.imm is Some,
    ensures
        r is Ok,
        s1.pc % 2 == 0,
        s1.pc as int == (s0.regs@[instr.rs1->0 as int] as int + signed_imm12(instr.imm->0))
            % 0x1_0000_0000_0000_0000 - (s0.regs@[instr.rs1->0 as int] as int + signed_imm12(
            instr.imm->0,
        )) % 0x1_0000_0000_0000_0000 % 2,
{
    let t = s0.regs@[instr.rs1->0 as int].wrapping_add(sext12(instr.imm->0));
    lemma_sign_extensions(0, 0, 0, instr.imm->0);
    lemma_word_bits(t, 0, 0, 0);
}

} // verus!
