//! RV64I loads: LB, LH, LW, LD, LBU, LHU, LWU.
use vstd::prelude::*;
use crate::arith::{lemma_sign_extensions, sext8, sext12, sext16, sext32, sign_extend_12, signed64};
use crate::isa::rv64i::alu::signed_imm12;
use crate::cpu::{CoreState, reg_write, same_but_regs};
use crate::decode::{DecodedInstruction, Funct3};
use crate::execute::ExecuteError;
use crate::memory::{
    MemoryError, MemoryInterface, SimpleMemory, access_check, checked, le16, le32, le64,
};

verus! {

/// The effective address of a load or store: base plus sign-extended offset.
pub open spec fn effective_addr(base: u64, imm: u32) -> u64 {
    base.wrapping_add(sext12(imm))
}

/// The outcome of a load with this `funct3` from memory `m` at `a`
/// (`None` for the unassigned `funct3` 7).
pub open spec fn load_value(m: Seq<u8>, f3: Funct3, a: u64) -> Option<Result<u64, MemoryError>> {
    let n = m.len();
    match f3 {
        Funct3::AddSub => Some(checked(access_check(n, a, 1), sext8(m[a as int]))),
        Funct3::Sll => Some(checked(access_check(n, a, 2), sext16(le16(m, a as int)))),
        Funct3::Slt => Some(checked(access_check(n, a, 4), sext32(le32(m, a as int)))),
        Funct3::Sltu => Some(checked(access_check(n, a, 8), le64(m, a as int))),
        Funct3::Xor => Some(checked(access_check(n, a, 1), m[a as int] as u64)),
        Funct3::SrlSra => Some(checked(access_check(n, a, 2), le16(m, a as int) as u64)),
        Funct3::Or => Some(checked(access_check(n, a, 4), le32(m, a as int) as u64)),
        Funct3::And => None,
    }
}

/// The effective address is the base plus the offset read as a 12-bit
/// two's-complement number, modulo 2^64.
pub proof fn lemma_effective_addr(base: u64, imm: u32)
    ensures
        effective_addr(base, imm) as int == (base as int + signed_imm12(imm))
            % 0x1_0000_0000_0000_0000,
{
    lemma_sign_extensions(0, 0, 0, imm);
}

/// A load that succeeds gives the bytes at the address read little-endian:
/// LB, LH and LW keep their two's-complement value (the register holds it
/// sign-extended), LBU, LHU and LWU their unsigned value, and LD the whole
/// doubleword.
pub proof fn lemma_load_values(m: Seq<u8>, f3: Funct3, a: u64)
    ensures
        load_value(m, f3, a) matches Some(Ok(v)) ==> match f3 {
            Funct3::AddSub => signed64(v) == m[a as int] as int - if m[a as int] >= 0x80 {
                0x100int
            } else {
                0int
            },
            Funct3::Sll => signed64(v) == le16(m, a as int) as int - if le16(m, a as int)
                >= 0x8000 {
                0x1_0000int
            } else {
                0int
            },
            Funct3::Slt => signed64(v) == le32(m, a as int) as int - if le32(m, a as int)
                >= 0x8000_0000 {
                0x1_0000_0000int
            } else {
                0int
            },
            Funct3::Sltu => v == le64(m, a as int),
            Funct3::Xor => v as int == m[a as int] as int,
            Funct3::SrlSra => v as int == le16(m, a as int) as int,
            Funct3::Or => v as int == le32(m, a as int) as int,
            Funct3::And => false,
        },
{
    lemma_sign_extensions(le32(m, a as int), le16(m, a as int), m[a as int], 0);
}

/// What `exec_load` leaves in the state and the memory, and what it returns.
pub open spec fn load_post(
    instr: DecodedInstruction,
    s0: CoreState,
    s1: CoreState,
    m0: SimpleMemory,
    m1: SimpleMemory,
    r: Result<(), ExecuteError>,
) -> bool {
    &&& m1 == m0
    &&& same_but_regs(s0, s1)
    &&& match (instr.rd, instr.rs1, instr.imm, instr.funct3) {
        (Some(rd), Some(rs1), Some(imm), Some(f3)) => match load_value(
            m0@,
            f3,
            effective_addr(s0.regs@[rs1 as int], imm),
        ) {
            Some(Ok(v)) => r is Ok && s1.regs@ == reg_write(s0.regs@, rd, v),
            Some(Err(e)) => r == Err::<(), ExecuteError>(ExecuteError::MemoryError(e))
                && s1.regs@ == s0.regs@,
            None => r == Err::<(), ExecuteError>(ExecuteError::InvalidOperation)
                && s1.regs@ == s0.regs@,
        },
        _ => r == Err::<(), ExecuteError>(ExecuteError::InvalidOperation) && s1.regs@
            == s0.regs@,
    }
}

/// Executes a load.  A memory error leaves the registers unchanged.
pub fn exec_load(instr: &DecodedInstruction, state: &mut CoreState, mem: &mut SimpleMemory) -> (r:
    Result<(), ExecuteError>)
    requires
        instr.wf(),
    ensures
        load_post(*instr, *old(state), *final(state), *old(mem), *final(mem), r),
{
    let (rd, rs1, imm, funct3) = match (instr.rd, instr.rs1, instr.imm, instr.funct3) {
        (Some(rd), Some(rs1), Some(imm), Some(f3)) => (rd, rs1, imm, f3),
        _ => return Err(ExecuteError::InvalidOperation),
    };
    let addr = state.regs[rs1 as usize].wrapping_add(sign_extend_12(imm));
    let loaded = match funct3 {
        Funct3::AddSub => mem.read_byte_sext(addr),
        Funct3::Sll => mem.read_half_sext(addr),
        Funct3::Slt => mem.read_word_sext(addr),
        Funct3::Sltu => mem.read_dword(addr),
        Funct3::Xor => mem.read_byte_zext(addr),
        Funct3::SrlSra => mem.read_half_zext(addr),
        Funct3::Or => mem.read_word_zext(addr),
        Funct3::And => return Err(ExecuteError::InvalidOperation),
    };
    let value = match loaded {
        Ok(v) => v,
        Err(e) => return Err(ExecuteError::MemoryError(e)),
    };
    state.write_reg(rd, value);
    Ok(())
}

} // verus!
