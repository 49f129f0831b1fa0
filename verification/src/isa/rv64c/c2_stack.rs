//! Compressed C2-quadrant stack-pointer instructions: C.SLLI, C.LWSP,
//! C.LDSP, C.SWSP, C.SDSP.
use vstd::prelude::*;
use crate::arith::sign_extend_32;
use crate::cpu::{CoreState, same_but_regs};
use crate::execute::ExecuteError;
use crate::memory::{MemoryInterface, SimpleMemory};
use super::c0_quadw::{c_addr, c_load_effect, c_store_effect, store_word};

verus! {

/// C.SLLI: `rd <<= shamt`; `rd = x0` and shift amounts above 63 are rejected.
pub fn exec_c_slli(rd: u8, shamt: u32, state: &mut CoreState) -> (r: Result<(), ExecuteError>)
    requires
        rd < 32,
    ensures
        same_but_regs(*old(state), *final(state)),
        rd == 0 || shamt > 63 ==> r == Err::<(), ExecuteError>(ExecuteError::InvalidOperation)
            && final(state).regs == old(state).regs,
        rd != 0 && shamt <= 63 ==> r is Ok && final(state).regs@ == old(state).regs@.update(
            rd as int,
            old(state).regs@[rd as int] << (shamt as u64),
        ),
{
    if rd == 0 {
        return Err(ExecuteError::InvalidOperation);
    }
    if shamt > 63 {
        return Err(ExecuteError::InvalidOperation);
    }
    let v = state.regs[rd as usize] << (shamt as u64);
    state.regs[rd as usize] = v;
    Ok(())
}

/// C.LWSP: `rd = sext32(mem32[sp + offset])`; `rd = x0` is rejected.
pub fn exec_c_lwsp(rd: u8, offset: u32, state: &mut CoreState, mem: &mut SimpleMemory) -> (r:
    Result<(), ExecuteError>)
    requires
        rd < 32,
    ensures
        *final(mem) == *old(mem),
        rd == 0 ==> r == Err::<(), ExecuteError>(ExecuteError::InvalidOperation) && *final(state)
            == *old(state),
        rd != 0 ==> c_load_effect(
            rd,
            c_addr(old(state).regs@[2], offset),
            4,
            *old(state),
            old(mem)@,
            *final(state),
            r,
        ),
{
    if rd == 0 {
        return Err(ExecuteError::InvalidOperation);
    }
    let a = state.regs[2].wrapping_add(offset as u64);
    if a % 4 != 0 {
        return Err(ExecuteError::MisalignedAccess(a, 4));
    }
    let v = match mem.read_word(a) {
        Ok(v) => v,
        Err(e) => return Err(ExecuteError::MemoryError(e)),
    };
    state.regs[rd as usize] = sign_extend_32(v);
    Ok(())
}

/// C.LDSP: `rd = mem64[sp + offset]`; `rd = x0` is rejected.
pub fn exec_c_ldsp(rd: u8, offset: u32, state: &mut CoreState, mem: &mut SimpleMemory) -> (r:
    Result<(), ExecuteError>)
    requires
        rd < 32,
    ensures
        *final(mem) == *old(mem),
        rd == 0 ==> r == Err::<(), ExecuteError>(ExecuteError::InvalidOperation) && *final(state)
            == *old(state),
        rd != 0 ==> c_load_effect(
            rd,
            c_addr(old(state).regs@[2], offset),
            8,
            *old(state),
            old(mem)@,
            *final(state),
            r,
        ),
{
    if rd == 0 {
        return Err(ExecuteError::InvalidOperation);
    }
    let a = state.regs[2].wrapping_add(offset as u64);
    if a % 8 != 0 {
        return Err(ExecuteError::MisalignedAccess(a, 8));
    }
    let v = match mem.read_dword(a) {
        Ok(v) => v,
        Err(e) => return Err(ExecuteError::MemoryError(e)),
    };
    state.regs[rd as usize] = v;
    Ok(())
}

/// C.SWSP: `mem32[sp + offset] = rs2[31:0]`.
pub fn exec_c_swsp(rs2: u8, offset: u32, state: &mut CoreState, mem: &mut SimpleMemory) -> (r:
    Result<(), ExecuteError>)
    requires
        rs2 < 32,
    ensures
        *final(state) == *old(state),
        c_store_effect(
            c_addr(old(state).regs@[2], offset),
            4,
            old(state).regs@[rs2 as int],
            old(mem)@,
            final(mem)@,
            r,
        ),
{
    let a = state.regs[2].wrapping_add(offset as u64);
    if a % 4 != 0 {
        return Err(ExecuteError::MisalignedAccess(a, 4));
    }
    store_word(mem, a, state.regs[rs2 as usize])
}

/// C.SDSP: `mem64[sp + offset] = rs2`.
pub fn exec_c_sdsp(rs2: u8, offset: u32, state: &mut CoreState, mem: &mut SimpleMemory) -> (r:
    Result<(), ExecuteError>)
    requires
        rs2 < 32,
    ensures
        *final(state) == *old(state),
        c_store_effect(
            c_addr(old(state).regs@[2], offset),
            8,
            old(state).regs@[rs2 as int],
            old(mem)@,
            final(mem)@,
            r,
        ),
{
    let a = state.regs[2].wrapping_add(offset as u64);
    if a % 8 != 0 {
        return Err(ExecuteError::MisalignedAccess(a, 8));
    }
    match mem.write_dword(a, state.regs[rs2 as usize]) {
        Ok(()) => Ok(()),
        Err(e) => Err(ExecuteError::MemoryError(e)),
    }
}

} // verus!
