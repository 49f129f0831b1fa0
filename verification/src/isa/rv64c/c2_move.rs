//! Compressed register jumps and breakpoint: C.JR, C.JALR, C.EBREAK.
use vstd::prelude::*;
use crate::cpu::CoreState;
use crate::execute::ExecuteError;
use super::c1_branch::{halfword_aligned, same_but_flow};

verus! {

/// C.JR: the pc becomes `rs1`; `rs1 = x0` and an odd target are rejected.
pub fn exec_c_jr(rs1: u8, state: &mut CoreState) -> (r: Result<(), ExecuteError>)
    requires
        rs1 < 32,
    ensures
        same_but_flow(*old(state), *final(state)),
        final(state).regs == old(state).regs,
        final(state).branch_taken == old(state).branch_taken,
        rs1 == 0 ==> r == Err::<(), ExecuteError>(ExecuteError::InvalidOperation) && final(state).pc
            == old(state).pc,
        rs1 != 0 && !halfword_aligned(old(state).regs@[rs1 as int]) ==> r == Err::<(), ExecuteError>(
            ExecuteError::MisalignedAccess(old(state).regs@[rs1 as int], 2),
        ) && final(state).pc == old(state).pc,
        rs1 != 0 && halfword_aligned(old(state).regs@[rs1 as int]) ==> r is Ok && final(state).pc
            == old(state).regs@[rs1 as int],
{
    if rs1 == 0 {
        return Err(ExecuteError::InvalidOperation);
    }
    let target = state.regs[rs1 as usize];
    if target % 2 != 0 {
        return Err(ExecuteError::MisalignedAccess(target, 2));
    }
    state.pc = target;
    Ok(())
}

/// C.JALR: `x1` receives pc + 2 and the pc becomes `rs1` (read first);
/// `rs1 = x0` and an odd target are rejected with no change.
pub fn exec_c_jalr(rs1: u8, state: &mut CoreState) -> (r: Result<(), ExecuteError>)
    requires
        rs1 < 32,
    ensures
        same_but_flow(*old(state), *final(state)),
        final(state).branch_taken == old(state).branch_taken,
        rs1 == 0 ==> r == Err::<(), ExecuteError>(ExecuteError::InvalidOperation) && *final(state)
            == *old(state),
        rs1 != 0 && !halfword_aligned(old(state).regs@[rs1 as int]) ==> r == Err::<(), ExecuteError>(
            ExecuteError::MisalignedAccess(old(state).regs@[rs1 as int], 2),
        ) && *final(state) == *old(state),
        rs1 != 0 && halfword_aligned(old(state).regs@[rs1 as int]) ==> r is Ok && final(state).pc
            == old(state).regs@[rs1 as int] && final(state).regs@ == old(state).regs@.update(
            1,
            old(state).pc.wrapping_add(2),
        ),
{
    if rs1 == 0 {
        return Err(ExecuteError::InvalidOperation);
    }
    let target = state.regs[rs1 as usize];
    if target % 2 != 0 {
        return Err(ExecuteError::MisalignedAccess(target, 2));
    }
    let return_addr = state.pc.wrapping_add(2);
    state.regs[1] = return_addr;
    state.pc = target;
    Ok(())
}

/// C.EBREAK: always reports a breakpoint.
pub fn exec_c_ebreak(_state: &mut CoreState) -> (r: Result<(), ExecuteError>)
    ensures
        r == Err::<(), ExecuteError>(ExecuteError::Ebreak),
        *final(_state) == *old(_state),
{
    Err(ExecuteError::Ebreak)
}

} // verus!
