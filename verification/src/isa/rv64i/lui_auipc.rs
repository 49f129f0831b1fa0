//! RV64I upper-immediate instructions: LUI and AUIPC.
use vstd::prelude::*;
use crate::arith::{lemma_sign_extensions, sext32, sign_extend_32, signed64};
use crate::cpu::{CoreState, reg_write, same_but_regs};
use crate::decode::{DecodedInstruction, Opcode, decode_spec, lemma_u_type_round_trip, u_type_encoding};
use crate::execute::ExecuteError;
use crate::memory::SimpleMemory;

verus! {

/// What `exec_lui` leaves in the state and the memory, and what it returns.
pub open spec fn lui_post(
    instr: DecodedInstruction,
    s0: CoreState,
    s1: CoreState,
    m0: SimpleMemory,
    m1: SimpleMemory,
    r: Result<(), ExecuteError>,
) -> bool {
    &&& m1 == m0
    &&& same_but_regs(s0, s1)
    &&& match (instr.rd, instr.imm) {
        (Some(rd), Some(imm)) => r is Ok && s1.regs@ == reg_write(
            s0.regs@,
            rd,
            sext32(imm & 0xFFFF_F000),
        ),
        _ => r == Err::<(), ExecuteError>(ExecuteError::InvalidOperation) && s1.regs@
            == s0.regs@,
    }
}

/// Executes LUI: `rd` receives the U-immediate (bits 31:12) sign-extended.
pub fn exec_lui(instr: &DecodedInstruction, state: &mut CoreState, _mem: &mut SimpleMemory) -> (r:
    Result<(), ExecuteError>)
    requires
        instr.wf(),
    ensures
        lui_post(*instr, *old(state), *final(state), *old(_mem), *final(_mem), r),
{
    let (rd, imm) = match (instr.rd, instr.imm) {
        (Some(rd), Some(imm)) => (rd, imm),
        _ => return Err(ExecuteError::InvalidOperation),
    };
    state.write_reg(rd, sign_extend_32(imm & 0xFFFF_F000));
    Ok(())
}

/// What `exec_auipc` leaves in the state and the memory, and what it returns.
pub open spec fn auipc_post(
    instr: DecodedInstruction,
    s0: CoreState,
    s1: CoreState,
    m0: SimpleMemory,
    m1: SimpleMemory,
    r: Result<(), ExecuteError>,
) -> bool {
    &&& m1 == m0
    &&& same_but_regs(s0, s1)
    &&& match (instr.rd, instr.imm) {
        (Some(rd), Some(imm)) => r is Ok && s1.regs@ == reg_write(
            s0.regs@,
            rd,
            s0.pc.wrapping_add(sext32(imm & 0xFFFF_F000)),
        ),
        _ => r == Err::<(), ExecuteError>(ExecuteError::InvalidOperation) && s1.regs@
            == s0.regs@,
    }
}

/// Executes AUIPC: `rd` receives the pc plus the sign-extended U-immediate.
pub fn exec_auipc(instr: &DecodedInstruction, state: &mut CoreState, _mem: &mut SimpleMemory) -> (r:
    Result<(), ExecuteError>)
    requires
        instr.wf(),
    ensures
        auipc_post(*instr, *old(state), *final(state), *old(_mem), *final(_mem), r),
{
    let (rd, imm) = match (instr.rd, instr.imm) {
        (Some(rd), Some(imm)) => (rd, imm),
        _ => return Err(ExecuteError::InvalidOperation),
    };
    let v = state.pc.wrapping_add(sign_extend_32(imm & 0xFFFF_F000));
    state.write_reg(rd, v);
    Ok(())
}

/// The value of a 20-bit upper immediate placed in bits 31:12 and read as
/// a 32-bit two's-complement number.
pub open spec fn upper_value(upper: u32) -> int {
    upper as int * 0x1000 - if upper >= 0x8_0000 {
        0x1_0000_0000int
    } else {
        0int
    }
}

/// Decoding the U-type encoding of any 20-bit upper immediate and executing
/// it writes to `rd` (not x0) the upper immediate shifted left by 12 and
/// sign-extended from bit 31 (LUI), or the pc plus that value modulo 2^64
/// (AUIPC).
pub proof fn lemma_upper_immediate_values(
    upper: u32,
    rd: u8,
    s0: CoreState,
    s1: CoreState,
    m0: SimpleMemory,
    m1: SimpleMemory,
    r: Result<(), ExecuteError>,
    t1: CoreState,
    n1: SimpleMemory,
    q: Result<(), ExecuteError>,
)
    requires
        upper < 0x10_0000,
        0 < rd < 32,
        lui_post(decode_spec(u_type_encoding(Opcode::Lui, upper, rd))->Ok_0, s0, s1, m0, m1, r),
        auipc_post(decode_spec(u_type_encoding(Opcode::Auipc, upper, rd))->Ok_0, s0, t1, m0, n1, q),
    ensures
        r is Ok,
        signed64(s1.regs@[rd as int]) == upper_value(upper),
        q is Ok,
        t1.regs@[rd as int] as int == (s0.pc as int + upper_value(upper)) % 0x1_0000_0000_0000_0000,
{
    lemma_u_type_round_trip(Opcode::Lui, upper, rd);
    lemma_u_type_round_trip(Opcode::Auipc, upper, rd);
    let v = (upper * 0x1000) as u32;
    lemma_sign_extensions(v, 0, 0, 0);
}

} // verus!
