//! Compressed shifts: C.SRLI, C.SRAI, C.SLLI.
use vstd::prelude::*;
use crate::arith::{shift_right_arith, sra64};
use crate::cpu::{CoreState, same_but_regs};
use crate::execute::ExecuteError;

verus! {

/// C.SRLI: `rd >>= shamt` (logical); a shift amount above 63 is rejected.
pub fn exec_c_srli(rd: u8, shamt: u32, state: &mut CoreState) -> (r: Result<(), ExecuteError>)
    requires
        rd < 32,
    ensures
        same_but_regs(*old(state), *final(state)),
        shamt > 63 ==> r == Err::<(), ExecuteError>(ExecuteError::InvalidOperation) && final(state).regs == old(state).regs,
        shamt <= 63 ==> r is Ok && final(state).regs@ == old(state).regs@.update(
            rd as int,
            old(state).regs@[rd as int] >> (shamt as u64),
        ),
{
    if shamt > 63 {
        return Err(ExecuteError::InvalidOperation);
    }
    let v = state.regs[rd as usize] >> (shamt as u64);
    state.regs[rd as usize] = v;
    Ok(())
}

/// C.SRAI: `rd >>= shamt` (arithmetic); a shift amount above 63 is rejected.
pub fn exec_c_srai(rd: u8, shamt: u32, state: &mut CoreState) -> (r: Result<(), ExecuteError>)
    requires
        rd < 32,
    ensures
        same_but_regs(*old(state), *final(state)),
        shamt > 63 ==> r == Err::<(), ExecuteError>(ExecuteError::InvalidOperation) && final(state).regs == old(state).regs,
        shamt <= 63 ==> r is Ok && final(state).regs@ == old(state).regs@.update(
            rd as int,
            sra64(old(state).regs@[rd as int], shamt as u64),
        ),
{
    if shamt > 63 {
        return Err(ExecuteError::InvalidOperation);
    }
    let v = shift_right_arith(state.regs[rd as usize], shamt as u64);
    state.regs[rd as usize] = v;
    Ok(())
}

/// C.SLLI: `rd <<= shamt`; `rd = x0` and shift amounts above 63 are rejected.
pub fn exec_c_slli(rd: u8, shamt: u32, state: &mut CoreState) -> (r: Result<(), ExecuteError>)
    requires
        rd < 32,
    ensures
        same_but_regs(*old(state), *final(state)),
        rd == 0 || shamt > 63 ==> r == Err::<(), ExecuteError>(ExecuteError::InvalidOperation)
            && final(state).regs == old(state).regs,
        rd != 0 && shamt <= 63 ==> r is Ok && final(state).regs@ == old(state).regs@.update(
            rd as int,
            old(state).regs@[rd as int] << (shamt as u64),
        ),
{
    if rd == 0 {
        return Err(ExecuteError::InvalidOperation);
    }
    if shamt > 63 {
        return Err(ExecuteError::InvalidOperation);
    }
    let v = state.regs[rd as usize] << (shamt as u64);
    state.regs[rd as usize] = v;
    Ok(())
}

} // verus!
