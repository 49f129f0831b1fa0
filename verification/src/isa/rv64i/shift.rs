//! RV64I shifts: SLL, SRL, SRA and their immediate forms.
use vstd::prelude::*;
use crate::arith::{lemma_word_bits, lemma_shift_right_divides, shift_right_arith, signed64, sra64};
use vstd::arithmetic::power2::pow2;
use crate::cpu::{CoreState, reg_write, same_but_regs};
use crate::decode::{DecodedInstruction, Funct3};
use crate::execute::ExecuteError;
use crate::memory::SimpleMemory;

verus! {

/// The value SLL, SRL or SRA writes (shift amount `b mod 64`); `None` for
/// any other `funct3`/`funct7`.
pub open spec fn shift_value(f3: Funct3, f7: u8, a: u64, b: u64) -> Option<u64> {
    let s = b & 0x3F;
    match f3 {
        Funct3::Sll => Some(a << s),
        Funct3::SrlSra => if f7 == 0 {
            Some(a >> s)
        } else if f7 == 0x20 {
            Some(sra64(a, s))
        } else {
            None
        },
        _ => None,
    }
}

/// The value SLLI, SRLI or SRAI writes (shift amount `imm mod 64`; bit 5
/// of `funct7` selects the arithmetic shift); `None` otherwise.
pub open spec fn shift_imm_value(f3: Funct3, f7: Option<u8>, a: u64, imm: u32) -> Option<u64> {
    let s = (imm & 0x3F) as u64;
    match f3 {
        Funct3::Sll => Some(a << s),
        Funct3::SrlSra => match f7 {
            Some(f) => if f & 0x20 == 0 {
                Some(a >> s)
            } else {
                Some(sra64(a, s))
            },
            None => None,
        },
        _ => None,
    }
}

/// What `exec_shift` leaves in the state and the memory, and what it returns.
pub open spec fn shift_post(
    instr: DecodedInstruction,
    s0: CoreState,
    s1: CoreState,
    m0: SimpleMemory,
    m1: SimpleMemory,
    r: Result<(), ExecuteError>,
) -> bool {
    &&& same_but_regs(s0, s1)
    &&& m1 == m0
    &&& match (instr.rd, instr.rs1, instr.rs2, instr.funct3, instr.funct7) {
        (Some(rd), Some(rs1), Some(rs2), Some(f3), Some(f7)) => match shift_value(
            f3,
            f7,
            s0.regs@[rs1 as int],
            s0.regs@[rs2 as int],
        ) {
            Some(v) => r is Ok && s1.regs@ == reg_write(s0.regs@, rd, v),
            None => r == Err::<(), ExecuteError>(ExecuteError::InvalidOperation)
                && s1.regs@ == s0.regs@,
        },
        _ => r == Err::<(), ExecuteError>(ExecuteError::InvalidOperation) && s1.regs@
            == s0.regs@,
    }
}

/// Executes SLL, SRL or SRA.
pub fn exec_shift(instr: &DecodedInstruction, state: &mut CoreState, _mem: &mut SimpleMemory) -> (r:
    Result<(), ExecuteError>)
    requires
        instr.wf(),
    ensures
        shift_post(*instr, *old(state), *final(state), *old(_mem), *final(_mem), r),
{
    let (rd, rs1, rs2, funct3, funct7) = match (instr.rd, instr.rs1, instr.rs2, instr.funct3, instr.funct7) {
        (Some(rd), Some(rs1), Some(rs2), Some(f3), Some(f7)) => (rd, rs1, rs2, f3, f7),
        _ => return Err(ExecuteError::InvalidOperation),
    };
    let a = state.regs[rs1 as usize];
    let s = state.regs[rs2 as usize] & 0x3F;
    proof {
        let b = state.regs[rs2 as int];
        assert(b & 0x3F < 64) by (bit_vector);
    }
    let result = match funct3 {
        Funct3::Sll => a << s,
        Funct3::SrlSra => {
            if funct7 == 0 {
                a >> s
            } else if funct7 == 0x20 {
                shift_right_arith(a, s)
            } else {
                return Err(ExecuteError::InvalidOperation);
            }
        },
        _ => return Err(ExecuteError::InvalidOperation),
    };
    state.write_reg(rd, result);
    Ok(())
}

/// What `exec_shift_imm` leaves in the state and the memory, and what it returns.
pub open spec fn shift_imm_post(
    instr: DecodedInstruction,
    s0: CoreState,
    s1: CoreState,
    m0: SimpleMemory,
    m1: SimpleMemory,
    r: Result<(), ExecuteError>,
) -> bool {
    &&& same_but_regs(s0, s1)
    &&& m1 == m0
    &&& match (instr.rd, instr.rs1, instr.imm, instr.funct3) {
        (Some(rd), Some(rs1), Some(imm), Some(f3)) => match shift_imm_value(
            f3,
            instr.funct7,
            s0.regs@[rs1 as int],
            imm,
        ) {
            Some(v) => r is Ok && s1.regs@ == reg_write(s0.regs@, rd, v),
            None => r == Err::<(), ExecuteError>(ExecuteError::InvalidOperation)
                && s1.regs@ == s0.regs@,
        },
        _ => r == Err::<(), ExecuteError>(ExecuteError::InvalidOperation) && s1.regs@
            == s0.regs@,
    }
}

/// Executes SLLI, SRLI or SRAI.
pub fn exec_shift_imm(instr: &DecodedInstruction, state: &mut CoreState, _mem: &mut SimpleMemory) -> (r:
    Result<(), ExecuteError>)
    requires
        instr.wf(),
    ensures
        shift_imm_post(*instr, *old(state), *final(state), *old(_mem), *final(_mem), r),
{
    let (rd, rs1, imm, funct3) = match (instr.rd, instr.rs1, instr.imm, instr.funct3) {
        (Some(rd), Some(rs1), Some(imm), Some(f3)) => (rd, rs1, imm, f3),
        _ => return Err(ExecuteError::InvalidOperation),
    };
    let s = (imm & 0x3F) as u64;
    proof {
        assert(imm & 0x3F < 64) by (bit_vector);
    }
    let a = state.regs[rs1 as usize];
    let result = match funct3 {
        Funct3::Sll => a << s,
        Funct3::SrlSra => {
            match instr.funct7 {
                Some(f7) => {
                    if f7 & 0x20 == 0 {
                        a >> s
                    } else {
                        shift_right_arith(a, s)
                    }
                },
                None => return Err(ExecuteError::InvalidOperation),
            }
        },
        _ => return Err(ExecuteError::InvalidOperation),
    };
    state.write_reg(rd, result);
    Ok(())
}

/// SRL and SRA shift by the low six bits of `rs2`: SRL divides the unsigned
/// value of `rs1` by 2 to that power and SRA its signed value, both
/// rounding toward negative infinity.  SRLI and SRAI do the same with the
/// low six bits of the immediate, bit 5 of `funct7` choosing SRAI.
pub proof fn lemma_shift_right_results(a: u64, b: u64, imm: u32, f7: u8)
    ensures
        shift_value(Funct3::SrlSra, 0, a, b) is Some,
        shift_value(Funct3::SrlSra, 0, a, b)->0 as int == a as int / pow2((b & 0x3F) as nat) as int,
        shift_value(Funct3::SrlSra, 0x20, a, b) is Some,
        signed64(shift_value(Funct3::SrlSra, 0x20, a, b)->0) == signed64(a) / pow2(
            (b & 0x3F) as nat,
        ) as int,
        shift_imm_value(Funct3::SrlSra, Some(f7), a, imm) is Some,
        f7 & 0x20 == 0 ==> shift_imm_value(Funct3::SrlSra, Some(f7), a, imm)->0 as int == a as int
            / pow2((imm & 0x3F) as nat) as int,
        f7 & 0x20 != 0 ==> signed64(shift_imm_value(Funct3::SrlSra, Some(f7), a, imm)->0)
            == signed64(a) / pow2((imm & 0x3F) as nat) as int,
{
    lemma_word_bits(b, imm, 0, 0);
    lemma_shift_right_divides(a, b & 0x3F, 0, 0);
    lemma_shift_right_divides(a, (imm & 0x3F) as u64, 0, 0);
}

} // verus!
