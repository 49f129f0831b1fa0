//! RV64I stores: SB, SH, SW, SD.
use vstd::prelude::*;
use crate::arith::sign_extend_12;
use crate::cpu::CoreState;
use crate::decode::{DecodedInstruction, Funct3};
use crate::execute::ExecuteError;
use crate::memory::{MemoryInterface, SimpleMemory, access_check, store_le};
use super::load::effective_addr;

verus! {

/// The number of bytes a store with this `funct3` writes (`None` beyond SD).
pub open spec fn store_width(f3: Funct3) -> Option<nat> {
    match f3 {
        Funct3::AddSub => Some(1),
        Funct3::Sll => Some(2),
        Funct3::Slt => Some(4),
        Funct3::Sltu => Some(8),
        _ => None,
    }
}

/// What `exec_store` leaves in the state and the memory, and what it returns.
pub open spec fn store_post(
    instr: DecodedInstruction,
    s0: CoreState,
    s1: CoreState,
    m0: SimpleMemory,
    m1: SimpleMemory,
    r: Result<(), ExecuteError>,
) -> bool {
    &&& s1 == s0
    &&& match (instr.rs1, instr.rs2, instr.imm, instr.funct3) {
        (Some(rs1), Some(rs2), Some(imm), Some(f3)) => match store_width(f3) {
            Some(w) => {
                let a = effective_addr(s0.regs@[rs1 as int], imm);
                match access_check(m0@.len(), a, w) {
                    Ok(()) => r is Ok && m1@ == store_le(
                        m0@,
                        a as int,
                        w as int,
                        s0.regs@[rs2 as int],
                    ),
                    Err(e) => r == Err::<(), ExecuteError>(ExecuteError::MemoryError(e))
                        && m1@ == m0@,
                }
            },
            None => r == Err::<(), ExecuteError>(ExecuteError::InvalidOperation) && m1
                == m0,
        },
        _ => r == Err::<(), ExecuteError>(ExecuteError::InvalidOperation) && m1
            == m0,
    }
}

/// Executes a store of the low bytes of `rs2`.  The registers never change;
/// a failed access leaves memory unchanged.
pub fn exec_store(instr: &DecodedInstruction, state: &mut CoreState, mem: &mut SimpleMemory) -> (r:
    Result<(), ExecuteError>)
    requires
        instr.wf(),
    ensures
        store_post(*instr, *old(state), *final(state), *old(mem), *final(mem), r),
{
    let (rs1, rs2, imm, funct3) = match (instr.rs1, instr.rs2, instr.imm, instr.funct3) {
        (Some(rs1), Some(rs2), Some(imm), Some(f3)) => (rs1, rs2, imm, f3),
        _ => return Err(ExecuteError::InvalidOperation),
    };
    let addr = state.regs[rs1 as usize].wrapping_add(sign_extend_12(imm));
    let value = state.regs[rs2 as usize];
    let written = match funct3 {
        Funct3::AddSub => {
            let res = mem.write_byte(addr, value as u8);
            proof {
                assert(res is Ok ==> final(mem)@ =~= store_le(old(mem)@, addr as int, 1, value));
            }
            res
        },
        Funct3::Sll => {
            let res = mem.write_half(addr, value as u16);
            proof {
                assert(res is Ok ==> final(mem)@ =~= store_le(old(mem)@, addr as int, 2, value)) by {
                    crate::memory::lemma_narrow_bytes(value);
                }
            }
            res
        },
        Funct3::Slt => {
            let res = mem.write_word(addr, value as u32);
            proof {
                assert(res is Ok ==> final(mem)@ =~= store_le(old(mem)@, addr as int, 4, value)) by {
                    crate::memory::lemma_narrow_bytes(value);
                }
            }
            res
        },
        Funct3::Sltu => mem.write_dword(addr, value),
        _ => return Err(ExecuteError::InvalidOperation),
    };
    match written {
        Ok(()) => Ok(()),
        Err(e) => Err(ExecuteError::MemoryError(e)),
    }
}

} // verus!
