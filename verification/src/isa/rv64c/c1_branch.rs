//! Compressed branches: C.BEQZ and C.BNEZ.
use vstd::prelude::*;
use crate::cpu::CoreState;
use crate::execute::ExecuteError;

verus! {

/// The state of a compressed branch or jump: everything but the pc, `x1`
/// and `branch_taken` is unchanged.
pub open spec fn same_but_flow(a: CoreState, b: CoreState) -> bool {
    &&& a.fpr == b.fpr
    &&& a.fcsr == b.fcsr
    &&& a.csr == b.csr
    &&& a.privilege == b.privilege
    &&& a.reservation == b.reservation
}

/// Whether a 64-bit target is halfword aligned.
pub open spec fn halfword_aligned(t: u64) -> bool {
    t % 2 == 0
}

/// C.BEQZ: when `rs1` is zero the pc moves by `offset`; a misaligned target
/// fails and leaves the pc unchanged.
pub fn exec_c_beqz(rs1: u8, offset: i32, state: &mut CoreState) -> (r: Result<(), ExecuteError>)
    requires
        rs1 < 32,
    ensures
        same_but_flow(*old(state), *final(state)),
        final(state).regs == old(state).regs,
        final(state).branch_taken == old(state).branch_taken,
        ({
            let t = old(state).pc.wrapping_add(offset as u64);
            if old(state).regs@[rs1 as int] != 0 {
                r is Ok && final(state).pc == old(state).pc
            } else if !halfword_aligned(t) {
                r == Err::<(), ExecuteError>(ExecuteError::MisalignedAccess(t, 2)) && final(state).pc
                    == old(state).pc
            } else {
                r is Ok && final(state).pc == t
            }
        }),
{
    if state.regs[rs1 as usize] == 0 {
        let target = state.pc.wrapping_add(offset as u64);
        if target % 2 != 0 {
            return Err(ExecuteError::MisalignedAccess(target, 2));
        }
        state.pc = target;
    }
    Ok(())
}

/// C.BNEZ: when `rs1` is nonzero the pc moves by `offset`; a misaligned
/// target fails and leaves the pc unchanged.
pub fn exec_c_bnez(rs1: u8, offset: i32, state: &mut CoreState) -> (r: Result<(), ExecuteError>)
    requires
        rs1 < 32,
    ensures
        same_but_flow(*old(state), *final(state)),
        final(state).regs == old(state).regs,
        final(state).branch_taken == old(state).branch_taken,
        ({
            let t = old(state).pc.wrapping_add(offset as u64);
            if old(state).regs@[rs1 as int] == 0 {
                r is Ok && final(state).pc == old(state).pc
            } else if !halfword_aligned(t) {
                r == Err::<(), ExecuteError>(ExecuteError::MisalignedAccess(t, 2)) && final(state).pc
                    == old(state).pc
            } else {
                r is Ok && final(state).pc == t
            }
        }),
{
    if state.regs[rs1 as usize] != 0 {
        let target = state.pc.wrapping_add(offset as u64);
        if target % 2 != 0 {
            return Err(ExecuteError::MisalignedAccess(target, 2));
        }
        state.pc = target;
    }
    Ok(())
}

} // verus!
