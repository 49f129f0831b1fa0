//! Compressed jumps: C.J and C.JAL.
use vstd::prelude::*;
use crate::cpu::CoreState;
use crate::execute::ExecuteError;
use super::c1_branch::{halfword_aligned, same_but_flow};

verus! {

/// C.J: the pc moves by `offset` and `branch_taken` is set; a misaligned
/// target fails and changes nothing.
pub fn exec_c_j(offset: i32, state: &mut CoreState) -> (r: Result<(), ExecuteError>)
    ensures
        same_but_flow(*old(state), *final(state)),
        final(state).regs == old(state).regs,
        ({
            let t = old(state).pc.wrapping_add(offset as u64);
            if !halfword_aligned(t) {
                r == Err::<(), ExecuteError>(ExecuteError::MisalignedAccess(t, 2)) && *final(state)
                    == *old(state)
            } else {
                r is Ok && final(state).pc == t && final(state).branch_taken
            }
        }),
{
    let target = state.pc.wrapping_add(offset as u64);
    if target % 2 != 0 {
        return Err(ExecuteError::MisalignedAccess(target, 2));
    }
    state.pc = target;
    state.branch_taken = true;
    Ok(())
}

/// C.JAL: `x1` receives pc + 2, the pc moves by `offset` and
/// `branch_taken` is set; a misaligned target fails and changes nothing.
pub fn exec_c_jal(offset: i32, state: &mut CoreState) -> (r: Result<(), ExecuteError>)
    ensures
        same_but_flow(*old(state), *final(state)),
        ({
            let t = old(state).pc.wrapping_add(offset as u64);
            if !halfword_aligned(t) {
                r == Err::<(), ExecuteError>(ExecuteError::MisalignedAccess(t, 2)) && *final(state)
                    == *old(state)
            } else {
                &&& r is Ok
                &&& final(state).pc == t
                &&& final(state).branch_taken
                &&& final(state).regs@ == old(state).regs@.update(1, old(state).pc.wrapping_add(2))
            }
        }),
{
    let target = state.pc.wrapping_add(offset as u64);
    if target % 2 != 0 {
        return Err(ExecuteError::MisalignedAccess(target, 2));
    }
    let return_addr = state.pc.wrapping_add(2);
    state.regs[1] = return_addr;
    state.pc = target;
    state.branch_taken = true;
    Ok(())
}

} // verus!
