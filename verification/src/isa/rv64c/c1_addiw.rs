//! Compressed word arithmetic: C.ADDIW, C.SUBW, C.ADDW.
use vstd::prelude::*;
use crate::arith::{sext6, sext32, sign_extend_6, sign_extend_32};
use crate::cpu::{CoreState, same_but_regs};
use crate::execute::ExecuteError;

verus! {

/// C.ADDIW: `rd = sext32(rd[31:0] + sext(imm[5:0]))`; `rd = x0` is rejected.
pub fn exec_c_addiw(rd: u8, imm: u32, state: &mut CoreState) -> (r: Result<(), ExecuteError>)
    requires
        rd < 32,
    ensures
        same_but_regs(*old(state), *final(state)),
        rd == 0 ==> r == Err::<(), ExecuteError>(ExecuteError::InvalidOperation) && final(state).regs
            == old(state).regs,
        rd != 0 ==> r is Ok && final(state).regs@ == old(state).regs@.update(
            rd as int,
            sext32((old(state).regs@[rd as int] as u32).wrapping_add(sext6(imm) as u32)),
        ),
{
    if rd == 0 {
        return Err(ExecuteError::InvalidOperation);
    }
    let x = state.regs[rd as usize] as u32;
    let v = sign_extend_32(x.wrapping_add(sign_extend_6(imm) as u32));
    state.regs[rd as usize] = v;
    Ok(())
}

/// C.SUBW: `rd = sext32(rd[31:0] - rs2[31:0])`.
pub fn exec_c_subw(rd: u8, rs2: u8, state: &mut CoreState) -> (r: Result<(), ExecuteError>)
    requires
        rd < 32,
        rs2 < 32,
    ensures
        same_but_regs(*old(state), *final(state)),
        r is Ok,
        final(state).regs@ == old(state).regs@.update(
            rd as int,
            sext32((old(state).regs@[rd as int] as u32).wrapping_sub(old(state).regs@[rs2 as int] as u32)),
        ),
{
    let x = state.regs[rd as usize] as u32;
    let y = state.regs[rs2 as usize] as u32;
    state.regs[rd as usize] = sign_extend_32(x.wrapping_sub(y));
    Ok(())
}

/// C.ADDW: `rd = sext32(rd[31:0] + rs2[31:0])`.
pub fn exec_c_addw(rd: u8, rs2: u8, state: &mut CoreState) -> (r: Result<(), ExecuteError>)
    requires
        rd < 32,
        rs2 < 32,
    ensures
        same_but_regs(*old(state), *final(state)),
        r is Ok,
        final(state).regs@ == old(state).regs@.update(
            rd as int,
            sext32((old(state).regs@[rd as int] as u32).wrapping_add(old(state).regs@[rs2 as int] as u32)),
        ),
{
    let x = state.regs[rd as usize] as u32;
    let y = state.regs[rs2 as usize] as u32;
    state.regs[rd as usize] = sign_extend_32(x.wrapping_add(y));
    Ok(())
}

} // verus!
