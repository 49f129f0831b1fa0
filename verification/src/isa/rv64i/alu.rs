//! RV64I register-register and register-immediate ALU operations.
use vstd::prelude::*;
use crate::arith::{lt_signed, sext12, sign_extend_12, signed64};
use crate::cpu::{CoreState, reg_write, same_but_regs};
use crate::decode::{DecodedInstruction, Funct3};
use crate::execute::ExecuteError;
use crate::memory::SimpleMemory;

verus! {

/// The value ADD, SUB, SLT, SLTU, XOR, OR and AND write.  The shift
/// encodings and an ADD/SUB `funct7` other than 0 and 0x20 write 0.
pub open spec fn op_value(f3: Funct3, f7: u8, a: u64, b: u64) -> u64 {
    match f3 {
        Funct3::AddSub => if f7 == 0 {
            a.wrapping_add(b)
        } else if f7 == 0x20 {
            a.wrapping_sub(b)
        } else {
            0
        },
        Funct3::Slt => if signed64(a) < signed64(b) {
            1
        } else {
            0
        },
        Funct3::Sltu => if a < b {
            1
        } else {
            0
        },
        Funct3::Xor => a ^ b,
        Funct3::Or => a | b,
        Funct3::And => a & b,
        _ => 0,
    }
}

/// The value ADDI, SLTI, SLTIU, XORI, ORI and ANDI write for a raw 12-bit
/// immediate; `None` for the shift encodings.
pub open spec fn op_imm_value(f3: Funct3, a: u64, imm: u32) -> Option<u64> {
    let i = sext12(imm);
    match f3 {
        Funct3::AddSub => Some(a.wrapping_add(i)),
        Funct3::Slt => Some(
            if signed64(a) < signed64(i) {
                1
            } else {
                0
            },
        ),
        Funct3::Sltu => Some(
            if a < i {
                1
            } else {
                0
            },
        ),
        Funct3::Xor => Some(a ^ i),
        Funct3::Or => Some(a | i),
        Funct3::And => Some(a & i),
        _ => None,
    }
}

/// The two's-complement reading of a raw 12-bit immediate.
pub open spec fn signed_imm12(imm: u32) -> int {
    if imm % 0x1000 < 0x800 {
        (imm % 0x1000) as int
    } else {
        (imm % 0x1000) as int - 0x1000
    }
}

/// ADD and SUB give the sum and the difference modulo 2^64; SLT gives 1
/// exactly when `a` is below `b` as two's-complement numbers (a negative
/// `a` against a non-negative `b`, or the same sign and a smaller
/// pattern), and SLTU exactly when `a` is below `b` as unsigned numbers;
/// either gives 0 otherwise.
pub proof fn lemma_op_results(a: u64, b: u64)
    ensures
        op_value(Funct3::AddSub, 0, a, b) as int == (a as int + b as int) % 0x1_0000_0000_0000_0000,
        op_value(Funct3::AddSub, 0x20, a, b) as int == (a as int - b as int)
            % 0x1_0000_0000_0000_0000,
        op_value(Funct3::Slt, 0, a, b) == 0 || op_value(Funct3::Slt, 0, a, b) == 1,
        (op_value(Funct3::Slt, 0, a, b) == 1) == ((a >= 0x8000_0000_0000_0000 && b
            < 0x8000_0000_0000_0000) || ((a >= 0x8000_0000_0000_0000) == (b
            >= 0x8000_0000_0000_0000) && a < b)),
        op_value(Funct3::Sltu, 0, a, b) == 0 || op_value(Funct3::Sltu, 0, a, b) == 1,
        (op_value(Funct3::Sltu, 0, a, b) == 1) == (a < b),
{
}

/// ADDI adds the immediate read as a 12-bit two's-complement number,
/// modulo 2^64; SLTI compares `a` with it as two's-complement numbers;
/// SLTIU compares `a` as an unsigned number with the immediate sign-extended
/// to 64 bits and read as unsigned.
pub proof fn lemma_op_imm_results(a: u64, imm: u32)
    ensures
        op_imm_value(Funct3::AddSub, a, imm) is Some,
        op_imm_value(Funct3::AddSub, a, imm)->0 as int == (a as int + signed_imm12(imm))
            % 0x1_0000_0000_0000_0000,
        op_imm_value(Funct3::Slt, a, imm) == Some(
            if signed64(a) < signed_imm12(imm) {
                1u64
            } else {
                0u64
            },
        ),
        op_imm_value(Funct3::Sltu, a, imm) == Some(
            if (a as int) < signed_imm12(imm) % 0x1_0000_0000_0000_0000 {
                1u64
            } else {
                0u64
            },
        ),
{
}

/// What `exec_op` leaves in the state and the memory, and what it returns.
pub open spec fn op_post(
    instr: DecodedInstruction,
    s0: CoreState,
    s1: CoreState,
    m0: SimpleMemory,
    m1: SimpleMemory,
    r: Result<(), ExecuteError>,
) -> bool {
    &&& same_but_regs(s0, s1)
    &&& m1 == m0
    &&& match (instr.rd, instr.rs1, instr.rs2, instr.funct3, instr.funct7) {
        (Some(rd), Some(rs1), Some(rs2), Some(f3), Some(f7)) => r is Ok && s1.regs@
            == reg_write(
            s0.regs@,
            rd,
            op_value(f3, f7, s0.regs@[rs1 as int], s0.regs@[rs2 as int]),
        ),
        _ => r == Err::<(), ExecuteError>(ExecuteError::InvalidOperation) && s1.regs@
            == s0.regs@,
    }
}

/// Executes ADD, SUB, SLT, SLTU, XOR, OR or AND.
pub fn exec_op(instr: &DecodedInstruction, state: &mut CoreState, _mem: &mut SimpleMemory) -> (r:
    Result<(), ExecuteError>)
    requires
        instr.wf(),
    ensures
        op_post(*instr, *old(state), *final(state), *old(_mem), *final(_mem), r),
{
    let (rd, rs1, rs2, funct3, funct7) = match (instr.rd, instr.rs1, instr.rs2, instr.funct3, instr.funct7) {
        (Some(rd), Some(rs1), Some(rs2), Some(f3), Some(f7)) => (rd, rs1, rs2, f3, f7),
        _ => return Err(ExecuteError::InvalidOperation),
    };
    let a = state.regs[rs1 as usize];
    let b = state.regs[rs2 as usize];
    let result: u64 = match funct3 {
        Funct3::AddSub => {
            if funct7 == 0 {
                a.wrapping_add(b)
            } else if funct7 == 0x20 {
                a.wrapping_sub(b)
            } else {
                0
            }
        },
        Funct3::Slt => {
            if lt_signed(a, b) {
                1
            } else {
                0
            }
        },
        Funct3::Sltu => {
            if a < b {
                1
            } else {
                0
            }
        },
        Funct3::Xor => a ^ b,
        Funct3::Or => a | b,
        Funct3::And => a & b,
        _ => 0,
    };
    state.write_reg(rd, result);
    Ok(())
}

/// What `exec_op_imm` leaves in the state and the memory, and what it returns.
pub open spec fn op_imm_post(
    instr: DecodedInstruction,
    s0: CoreState,
    s1: CoreState,
    m0: SimpleMemory,
    m1: SimpleMemory,
    r: Result<(), ExecuteError>,
) -> bool {
    &&& same_but_regs(s0, s1)
    &&& m1 == m0
    &&& match (instr.rd, instr.rs1, instr.imm, instr.funct3) {
        (Some(rd), Some(rs1), Some(imm), Some(f3)) => match op_imm_value(
            f3,
            s0.regs@[rs1 as int],
            imm,
        ) {
            Some(v) => r is Ok && s1.regs@ == reg_write(s0.regs@, rd, v),
            None => r == Err::<(), ExecuteError>(ExecuteError::InvalidOperation)
                && s1.regs@ == s0.regs@,
        },
        _ => r == Err::<(), ExecuteError>(ExecuteError::InvalidOperation) && s1.regs@
            == s0.regs@,
    }
}

/// Executes ADDI, SLTI, SLTIU, XORI, ORI or ANDI.
pub fn exec_op_imm(instr: &DecodedInstruction, state: &mut CoreState, _mem: &mut SimpleMemory) -> (r:
    Result<(), ExecuteError>)
    requires
        instr.wf(),
    ensures
        op_imm_post(*instr, *old(state), *final(state), *old(_mem), *final(_mem), r),
{
    let (rd, rs1, imm, funct3) = match (instr.rd, instr.rs1, instr.imm, instr.funct3) {
        (Some(rd), Some(rs1), Some(imm), Some(f3)) => (rd, rs1, imm, f3),
        _ => return Err(ExecuteError::InvalidOperation),
    };
    let i = sign_extend_12(imm);
    let a = state.regs[rs1 as usize];
    let result: u64 = match funct3 {
        Funct3::AddSub => a.wrapping_add(i),
        Funct3::Slt => {
            if lt_signed(a, i) {
                1
            } else {
                0
            }
        },
        Funct3::Sltu => {
            if a < i {
                1
            } else {
                0
            }
        },
        Funct3::Xor => a ^ i,
        Funct3::Or => a | i,
        Funct3::And => a & i,
        _ => return Err(ExecuteError::InvalidOperation),
    };
    state.write_reg(rd, result);
    Ok(())
}

} // verus!
