//! RV64I word operations: ADDIW, SLLIW, SRLIW, SRAIW, ADDW, SUBW, SLLW,
//! SRLW, SRAW.  Each computes a 32-bit result and sign-extends it.
use vstd::prelude::*;
use crate::arith::{
    lemma_word_bits, lemma_shift_right_divides, sext12, sext32, shift_right_arith32, sign_extend_12,
    sign_extend_32, signed32, sra32,
};
use vstd::arithmetic::power2::pow2;
use crate::cpu::{CoreState, reg_write, same_but_regs};
use crate::decode::{DecodedInstruction, Funct3};
use crate::execute::ExecuteError;
use crate::memory::SimpleMemory;

verus! {

/// The 32-bit result of ADDIW, SLLIW, SRLIW or SRAIW before sign extension.
pub open spec fn op_imm_32_value(f3: Funct3, f7: Option<u8>, a: u64, imm: u32) -> Option<u32> {
    let x = a as u32;
    let s = imm & 0x1F;
    match f3 {
        Funct3::AddSub => Some(x.wrapping_add(sext12(imm) as u32)),
        Funct3::Sll => Some(x << s),
        Funct3::SrlSra => match f7 {
            Some(f) => if f & 0x20 == 0 {
                Some(x >> s)
            } else {
                Some(sra32(x, s))
            },
            None => None,
        },
        _ => None,
    }
}

/// The 32-bit result of ADDW, SUBW, SLLW, SRLW or SRAW before sign extension.
pub open spec fn op_32_value(f3: Funct3, f7: u8, a: u64, b: u64) -> Option<u32> {
    let x = a as u32;
    let y = b as u32;
    let s = y & 0x1F;
    match f3 {
        Funct3::AddSub => if f7 == 0 {
            Some(x.wrapping_add(y))
        } else if f7 == 0x20 {
            Some(x.wrapping_sub(y))
        } else {
            None
        },
        Funct3::Sll => Some(x << s),
        Funct3::SrlSra => if f7 == 0 {
            Some(x >> s)
        } else if f7 == 0x20 {
            Some(sra32(x, s))
        } else {
            None
        },
        _ => None,
    }
}

/// ADDW and SUBW give the sum and the difference of the low words of
/// their operands modulo 2^32; SRLW and SRAW divide the low word of `rs1`,
/// read as unsigned or as signed, by 2 to the power of the low five bits of
/// `rs2`, rounding toward negative infinity, and SRLIW and SRAIW do the same
/// with the low five bits of the immediate (the register then receives the
/// word sign-extended).
pub proof fn lemma_op_32_results(a: u64, b: u64, imm: u32, f7: u8)
    ensures
        op_32_value(Funct3::AddSub, 0, a, b) is Some,
        op_32_value(Funct3::AddSub, 0, a, b)->0 as int == ((a as u32) as int + (b as u32) as int)
            % 0x1_0000_0000,
        op_32_value(Funct3::AddSub, 0x20, a, b) is Some,
        op_32_value(Funct3::AddSub, 0x20, a, b)->0 as int == ((a as u32) as int - (b as u32) as int)
            % 0x1_0000_0000,
        op_32_value(Funct3::SrlSra, 0, a, b) is Some,
        op_32_value(Funct3::SrlSra, 0, a, b)->0 as int == (a as u32) as int / pow2(
            ((b as u32) & 0x1F) as nat,
        ) as int,
        op_32_value(Funct3::SrlSra, 0x20, a, b) is Some,
        signed32(op_32_value(Funct3::SrlSra, 0x20, a, b)->0) == signed32(a as u32) / pow2(
            ((b as u32) & 0x1F) as nat,
        ) as int,
        op_imm_32_value(Funct3::SrlSra, Some(f7), a, imm) is Some,
        f7 & 0x20 == 0 ==> op_imm_32_value(Funct3::SrlSra, Some(f7), a, imm)->0 as int == (
        a as u32) as int / pow2((imm & 0x1F) as nat) as int,
        f7 & 0x20 != 0 ==> signed32(op_imm_32_value(Funct3::SrlSra, Some(f7), a, imm)->0) == signed32(
            a as u32,
        ) / pow2((imm & 0x1F) as nat) as int,
{
    lemma_word_bits(0, b as u32, 0, 0);
    lemma_word_bits(0, imm, 0, 0);
    lemma_shift_right_divides(0, 0, a as u32, (b as u32) & 0x1F);
    lemma_shift_right_divides(0, 0, a as u32, imm & 0x1F);
}

/// What `exec_op_imm_32` leaves in the state and the memory, and what it returns.
pub open spec fn op_imm_32_post(
    instr: DecodedInstruction,
    s0: CoreState,
    s1: CoreState,
    m0: SimpleMemory,
    m1: SimpleMemory,
    r: Result<(), ExecuteError>,
) -> bool {
    &&& same_but_regs(s0, s1)
    &&& m1 == m0
    &&& match (instr.rd, instr.rs1, instr.imm, instr.funct3) {
        (Some(rd), Some(rs1), Some(imm), Some(f3)) => match op_imm_32_value(
            f3,
            instr.funct7,
            s0.regs@[rs1 as int],
            imm,
        ) {
            Some(v) => r is Ok && s1.regs@ == reg_write(
                s0.regs@,
                rd,
                sext32(v),
            ),
            None => r == Err::<(), ExecuteError>(ExecuteError::InvalidOperation)
                && s1.regs@ == s0.regs@,
        },
        _ => r == Err::<(), ExecuteError>(ExecuteError::InvalidOperation) && s1.regs@
            == s0.regs@,
    }
}

/// Executes ADDIW, SLLIW, SRLIW or SRAIW.
pub fn exec_op_imm_32(instr: &DecodedInstruction, state: &mut CoreState, _mem: &mut SimpleMemory) -> (r:
    Result<(), ExecuteError>)
    requires
        instr.wf(),
    ensures
        op_imm_32_post(*instr, *old(state), *final(state), *old(_mem), *final(_mem), r),
{
    let (rd, rs1, imm, funct3) = match (instr.rd, instr.rs1, instr.imm, instr.funct3) {
        (Some(rd), Some(rs1), Some(imm), Some(f3)) => (rd, rs1, imm, f3),
        _ => return Err(ExecuteError::InvalidOperation),
    };
    let x = state.regs[rs1 as usize] as u32;
    let s = imm & 0x1F;
    proof {
        assert(imm & 0x1F < 32) by (bit_vector);
    }
    let result: u32 = match funct3 {
        Funct3::AddSub => x.wrapping_add(sign_extend_12(imm) as u32),
        Funct3::Sll => x << s,
        Funct3::SrlSra => {
            match instr.funct7 {
                Some(f7) => {
                    if f7 & 0x20 == 0 {
                        x >> s
                    } else {
                        shift_right_arith32(x, s)
                    }
                },
                None => return Err(ExecuteError::InvalidOperation),
            }
        },
        _ => return Err(ExecuteError::InvalidOperation),
    };
    state.write_reg(rd, sign_extend_32(result));
    Ok(())
}

/// What `exec_op_32` leaves in the state and the memory, and what it returns.
pub open spec fn op_32_post(
    instr: DecodedInstruction,
    s0: CoreState,
    s1: CoreState,
    m0: SimpleMemory,
    m1: SimpleMemory,
    r: Result<(), ExecuteError>,
) -> bool {
    &&& same_but_regs(s0, s1)
    &&& m1 == m0
    &&& match (instr.rd, instr.rs1, instr.rs2, instr.funct3, instr.funct7) {
        (Some(rd), Some(rs1), Some(rs2), Some(f3), Some(f7)) => match op_32_value(
            f3,
            f7,
            s0.regs@[rs1 as int],
            s0.regs@[rs2 as int],
        ) {
            Some(v) => r is Ok && s1.regs@ == reg_write(
                s0.regs@,
                rd,
                sext32(v),
            ),
            None => r == Err::<(), ExecuteError>(ExecuteError::InvalidOperation)
                && s1.regs@ == s0.regs@,
        },
        _ => r == Err::<(), ExecuteError>(ExecuteError::InvalidOperation) && s1.regs@
            == s0.regs@,
    }
}

/// Executes ADDW, SUBW, SLLW, SRLW or SRAW.
pub fn exec_op_32(instr: &DecodedInstruction, state: &mut CoreState, _mem: &mut SimpleMemory) -> (r:
    Result<(), ExecuteError>)
    requires
        instr.wf(),
    ensures
        op_32_post(*instr, *old(state), *final(state), *old(_mem), *final(_mem), r),
{
    let (rd, rs1, rs2, funct3, funct7) = match (instr.rd, instr.rs1, instr.rs2, instr.funct3, instr.funct7) {
        (Some(rd), Some(rs1), Some(rs2), Some(f3), Some(f7)) => (rd, rs1, rs2, f3, f7),
        _ => return Err(ExecuteError::InvalidOperation),
    };
    let x = state.regs[rs1 as usize] as u32;
    let y = state.regs[rs2 as usize] as u32;
    let s = y & 0x1F;
    proof {
        assert(y & 0x1F < 32) by (bit_vector);
    }
    let result: u32 = match funct3 {
        Funct3::AddSub => {
            if funct7 == 0 {
                x.wrapping_add(y)
            } else if funct7 == 0x20 {
                x.wrapping_sub(y)
            } else {
                return Err(ExecuteError::InvalidOperation);
            }
        },
        Funct3::Sll => x << s,
        Funct3::SrlSra => {
            if funct7 == 0 {
                x >> s
            } else if funct7 == 0x20 {
                shift_right_arith32(x, s)
            } else {
                return Err(ExecuteError::InvalidOperation);
            }
        },
        _ => return Err(ExecuteError::InvalidOperation),
    };
    state.write_reg(rd, sign_extend_32(result));
    Ok(())
}

} // verus!
