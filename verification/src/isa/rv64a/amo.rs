//! RV64A atomic read-modify-write instructions over typed memory accesses.
//!
//! Each operation reads the old span, computes the new value with
//! `hart_amods`, writes it, and retires the old value into `rd`
//! (sign-extended for word operations).  `rd = x0` suppresses only the
//! register write.
use vstd::prelude::*;
use crate::arith::{sext32, sign_extend_32};
use crate::cpu::{CoreState, reg_write, same_but_regs};
use crate::decode::DecodedInstruction;
use crate::execute::ExecuteError;
use crate::hart_amods::{AmoOperation, amo_value, compute_value};
use crate::memory::{MemoryInterface, SimpleMemory, access_check, le32, le64, store_le};
use crate::physical::{AmoWidth, amo_width_bytes};

verus! {

/// The old span value an AMO reads at `a`.
pub open spec fn amo_old(m: Seq<u8>, width: AmoWidth, a: u64) -> u64 {
    match width {
        AmoWidth::Word => le32(m, a as int) as u64,
        AmoWidth::Doubleword => le64(m, a as int),
    }
}

/// The value an AMO retires into `rd`.
pub open spec fn amo_rd_value(width: AmoWidth, old: u64) -> u64 {
    match width {
        AmoWidth::Word => sext32(old as u32),
        AmoWidth::Doubleword => old,
    }
}

/// The effect of one AMO read-modify-write on registers and memory.
pub open spec fn amo_effect(
    instr: DecodedInstruction,
    op: AmoOperation,
    width: AmoWidth,
    s0: CoreState,
    m0: Seq<u8>,
    s1: CoreState,
    m1: Seq<u8>,
    r: Result<(), ExecuteError>,
) -> bool {
    &&& same_but_regs(s0, s1)
    &&& match (instr.rs1, instr.rs2, instr.rd) {
        (Some(rs1), Some(rs2), Some(rd)) => {
            let a = s0.regs@[rs1 as int];
            let w = amo_width_bytes(width) as nat;
            match access_check(m0.len(), a, w) {
                Ok(()) => {
                    let old = amo_old(m0, width, a);
                    &&& r is Ok
                    &&& m1 == store_le(
                        m0,
                        a as int,
                        w as int,
                        amo_value(op, width, old, s0.regs@[rs2 as int]),
                    )
                    &&& s1.regs@ == reg_write(s0.regs@, rd, amo_rd_value(width, old))
                },
                Err(e) => r == Err::<(), ExecuteError>(ExecuteError::MemoryError(e)) && m1 == m0
                    && s1.regs == s0.regs,
            }
        },
        _ => r == Err::<(), ExecuteError>(ExecuteError::InvalidOperation) && m1 == m0 && s1.regs
            == s0.regs,
    }
}

/// One AMO read-modify-write of the given operation and width.
pub fn exec_amo_rmw(
    instr: &DecodedInstruction,
    state: &mut CoreState,
    mem: &mut SimpleMemory,
    operation: AmoOperation,
    width: AmoWidth,
) -> (r: Result<(), ExecuteError>)
    requires
        instr.wf(),
    ensures
        amo_effect(*instr, operation, width, *old(state), old(mem)@, *final(state), final(mem)@, r),
{
    let (rs1, rs2, rd) = match (instr.rs1, instr.rs2, instr.rd) {
        (Some(rs1), Some(rs2), Some(rd)) => (rs1, rs2, rd),
        _ => return Err(ExecuteError::InvalidOperation),
    };
    let addr = state.regs[rs1 as usize];
    let operand = state.regs[rs2 as usize];
    match width {
        AmoWidth::Word => {
            let old = match mem.read_word(addr) {
                Ok(v) => v,
                Err(e) => return Err(ExecuteError::MemoryError(e)),
            };
            let new = compute_value(operation, width, old as u64, operand);
            let ghost m0 = mem@;
            let res = mem.write_word(addr, new as u32);
            proof {
                let w = new as u32;
                assert(w as u64 == new) by (bit_vector)
                    requires
                        new == (w as u64) || new < 0x1_0000_0000,
                        w == new as u32,
                ;
            }
            match res {
                Ok(()) => {},
                Err(e) => return Err(ExecuteError::MemoryError(e)),
            }
            state.write_reg(rd, sign_extend_32(old));
        },
        AmoWidth::Doubleword => {
            let old = match mem.read_dword(addr) {
                Ok(v) => v,
                Err(e) => return Err(ExecuteError::MemoryError(e)),
            };
            let new = compute_value(operation, width, old, operand);
            match mem.write_dword(addr, new) {
                Ok(()) => {},
                Err(e) => return Err(ExecuteError::MemoryError(e)),
            }
            state.write_reg(rd, old);
        },
    }
    Ok(())
}

/// AMOSWAP.W.
pub fn exec_amoswap(instr: &DecodedInstruction, state: &mut CoreState, mem: &mut SimpleMemory) -> (r:
    Result<(), ExecuteError>)
    requires
        instr.wf(),
    ensures
        amo_effect(
            *instr,
            AmoOperation::Swap,
            AmoWidth::Word,
            *old(state),
            old(mem)@,
            *final(state),
            final(mem)@,
            r,
        ),
{
    exec_amo_rmw(instr, state, mem, AmoOperation::Swap, AmoWidth::Word)
}

/// AMOADD.W.
pub fn exec_amoadd(instr: &DecodedInstruction, state: &mut CoreState, mem: &mut SimpleMemory) -> (r:
    Result<(), ExecuteError>)
    requires
        instr.wf(),
    ensures
        amo_effect(
            *instr,
            AmoOperation::Add,
            AmoWidth::Word,
            *old(state),
            old(mem)@,
            *final(state),
            final(mem)@,
            r,
        ),
{
    exec_amo_rmw(instr, state, mem, AmoOperation::Add, AmoWidth::Word)
}

/// AMOAND.W.
pub fn exec_amoand(instr: &DecodedInstruction, state: &mut CoreState, mem: &mut SimpleMemory) -> (r:
    Result<(), ExecuteError>)
    requires
        instr.wf(),
    ensures
        amo_effect(
            *instr,
            AmoOperation::BitAnd,
            AmoWidth::Word,
            *old(state),
            old(mem)@,
            *final(state),
            final(mem)@,
            r,
        ),
{
    exec_amo_rmw(instr, state, mem, AmoOperation::BitAnd, AmoWidth::Word)
}

/// AMOOR.W.
pub fn exec_amoor(instr: &DecodedInstruction, state: &mut CoreState, mem: &mut SimpleMemory) -> (r:
    Result<(), ExecuteError>)
    requires
        instr.wf(),
    ensures
        amo_effect(
            *instr,
            AmoOperation::BitOr,
            AmoWidth::Word,
            *old(state),
            old(mem)@,
            *final(state),
            final(mem)@,
            r,
        ),
{
    exec_amo_rmw(instr, state, mem, AmoOperation::BitOr, AmoWidth::Word)
}

/// AMOXOR.W.
pub fn exec_amoxor(instr: &DecodedInstruction, state: &mut CoreState, mem: &mut SimpleMemory) -> (r:
    Result<(), ExecuteError>)
    requires
        instr.wf(),
    ensures
        amo_effect(
            *instr,
            AmoOperation::BitXor,
            AmoWidth::Word,
            *old(state),
            old(mem)@,
            *final(state),
            final(mem)@,
            r,
        ),
{
    exec_amo_rmw(instr, state, mem, AmoOperation::BitXor, AmoWidth::Word)
}

/// AMOMAX.W.
pub fn exec_amomax(instr: &DecodedInstruction, state: &mut CoreState, mem: &mut SimpleMemory) -> (r:
    Result<(), ExecuteError>)
    requires
        instr.wf(),
    ensures
        amo_effect(
            *instr,
            AmoOperation::Max,
            AmoWidth::Word,
            *old(state),
            old(mem)@,
            *final(state),
            final(mem)@,
            r,
        ),
{
    exec_amo_rmw(instr, state, mem, AmoOperation::Max, AmoWidth::Word)
}

/// AMOMIN.W.
pub fn exec_amomin(instr: &DecodedInstruction, state: &mut CoreState, mem: &mut SimpleMemory) -> (r:
    Result<(), ExecuteError>)
    requires
        instr.wf(),
    ensures
        amo_effect(
            *instr,
            AmoOperation::Min,
            AmoWidth::Word,
            *old(state),
            old(mem)@,
            *final(state),
            final(mem)@,
            r,
        ),
{
    exec_amo_rmw(instr, state, mem, AmoOperation::Min, AmoWidth::Word)
}

/// AMOMAXU.W.
pub fn exec_amomaxu(instr: &DecodedInstruction, state: &mut CoreState, mem: &mut SimpleMemory) -> (r:
    Result<(), ExecuteError>)
    requires
        instr.wf(),
    ensures
        amo_effect(
            *instr,
            AmoOperation::Maxu,
            AmoWidth::Word,
            *old(state),
            old(mem)@,
            *final(state),
            final(mem)@,
            r,
        ),
{
    exec_amo_rmw(instr, state, mem, AmoOperation::Maxu, AmoWidth::Word)
}

/// AMOMINU.W.
pub fn exec_amominu(instr: &DecodedInstruction, state: &mut CoreState, mem: &mut SimpleMemory) -> (r:
    Result<(), ExecuteError>)
    requires
        instr.wf(),
    ensures
        amo_effect(
            *instr,
            AmoOperation::Minu,
            AmoWidth::Word,
            *old(state),
            old(mem)@,
            *final(state),
            final(mem)@,
            r,
        ),
{
    exec_amo_rmw(instr, state, mem, AmoOperation::Minu, AmoWidth::Word)
}

} // verus!
