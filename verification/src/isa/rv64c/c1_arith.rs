//! Compressed C1-quadrant arithmetic: C.ADDI, C.LI, C.LUI, C.ADDI16SP,
//! C.ANDI, C.MV, C.ADD, C.SUB, C.XOR, C.OR, C.AND.
use vstd::prelude::*;
use crate::arith::{sext6, sext32, sign_extend_6, sign_extend_32};
use crate::cpu::{CoreState, same_but_regs};
use crate::execute::ExecuteError;

verus! {

/// C.ADDI: `rd += sext(imm[5:0])`; `rd = x0` is rejected.
pub fn exec_c_addi(rd: u8, imm: u32, state: &mut CoreState) -> (r: Result<(), ExecuteError>)
    requires
        rd < 32,
    ensures
        same_but_regs(*old(state), *final(state)),
        rd == 0 ==> r == Err::<(), ExecuteError>(ExecuteError::InvalidOperation) && final(state).regs
            == old(state).regs,
        rd != 0 ==> r is Ok && final(state).regs@ == old(state).regs@.update(
            rd as int,
            old(state).regs@[rd as int].wrapping_add(sext6(imm)),
        ),
{
    if rd == 0 {
        return Err(ExecuteError::InvalidOperation);
    }
    let v = state.regs[rd as usize].wrapping_add(sign_extend_6(imm));
    state.regs[rd as usize] = v;
    Ok(())
}

/// C.LI: `rd = sext(imm[5:0])`; `rd = x0` is rejected.
pub fn exec_c_li(rd: u8, imm: u32, state: &mut CoreState) -> (r: Result<(), ExecuteError>)
    requires
        rd < 32,
    ensures
        same_but_regs(*old(state), *final(state)),
        rd == 0 ==> r == Err::<(), ExecuteError>(ExecuteError::InvalidOperation) && final(state).regs
            == old(state).regs,
        rd != 0 ==> r is Ok && final(state).regs@ == old(state).regs@.update(rd as int, sext6(imm)),
{
    if rd == 0 {
        return Err(ExecuteError::InvalidOperation);
    }
    state.regs[rd as usize] = sign_extend_6(imm);
    Ok(())
}

/// C.LUI: `rd = sext32(imm << 12)`; `rd` of x0 or x2 is rejected.
pub fn exec_c_lui(rd: u8, imm: u32, state: &mut CoreState) -> (r: Result<(), ExecuteError>)
    requires
        rd < 32,
    ensures
        same_but_regs(*old(state), *final(state)),
        rd == 0 || rd == 2 ==> r == Err::<(), ExecuteError>(ExecuteError::InvalidOperation)
            && final(state).regs == old(state).regs,
        rd != 0 && rd != 2 ==> r is Ok && final(state).regs@ == old(state).regs@.update(
            rd as int,
            sext32(imm << 12u32),
        ),
{
    if rd == 0 || rd == 2 {
        return Err(ExecuteError::InvalidOperation);
    }
    state.regs[rd as usize] = sign_extend_32(imm << 12);
    Ok(())
}

/// C.ADDI16SP: `sp += sext(imm[5:0]) * 16`.
pub fn exec_c_addi16sp(imm: u32, state: &mut CoreState) -> (r: Result<(), ExecuteError>)
    ensures
        same_but_regs(*old(state), *final(state)),
        r is Ok,
        final(state).regs@ == old(state).regs@.update(
            2,
            old(state).regs@[2].wrapping_add(sext6(imm) << 4u64),
        ),
{
    let scaled = sign_extend_6(imm) << 4;
    let v = state.regs[2].wrapping_add(scaled);
    state.regs[2] = v;
    Ok(())
}

/// C.ANDI: `rd &= imm`, the immediate's low six bits sign-extended.
pub fn exec_c_andi(rd: u8, imm: u32, state: &mut CoreState) -> (r: Result<(), ExecuteError>)
    requires
        rd < 32,
    ensures
        same_but_regs(*old(state), *final(state)),
        r is Ok,
        final(state).regs@ == old(state).regs@.update(
            rd as int,
            old(state).regs@[rd as int] & sext6(imm),
        ),
{
    let v = state.regs[rd as usize] & sign_extend_6(imm);
    state.regs[rd as usize] = v;
    Ok(())
}

/// C.MV: `rd = rs2`; `rd = x0` is rejected.
pub fn exec_c_mv(rd: u8, rs2: u8, state: &mut CoreState) -> (r: Result<(), ExecuteError>)
    requires
        rd < 32,
        rs2 < 32,
    ensures
        same_but_regs(*old(state), *final(state)),
        rd == 0 ==> r == Err::<(), ExecuteError>(ExecuteError::InvalidOperation) && final(state).regs
            == old(state).regs,
        rd != 0 ==> r is Ok && final(state).regs@ == old(state).regs@.update(
            rd as int,
            old(state).regs@[rs2 as int],
        ),
{
    if rd == 0 {
        return Err(ExecuteError::InvalidOperation);
    }
    let v = state.regs[rs2 as usize];
    state.regs[rd as usize] = v;
    Ok(())
}

/// C.ADD: `rd += rs2`; `rd = x0` is rejected.
pub fn exec_c_add(rd: u8, rs2: u8, state: &mut CoreState) -> (r: Result<(), ExecuteError>)
    requires
        rd < 32,
        rs2 < 32,
    ensures
        same_but_regs(*old(state), *final(state)),
        rd == 0 ==> r == Err::<(), ExecuteError>(ExecuteError::InvalidOperation) && final(state).regs
            == old(state).regs,
        rd != 0 ==> r is Ok && final(state).regs@ == old(state).regs@.update(
            rd as int,
            old(state).regs@[rd as int].wrapping_add(old(state).regs@[rs2 as int]),
        ),
{
    if rd == 0 {
        return Err(ExecuteError::InvalidOperation);
    }
    let v = state.regs[rd as usize].wrapping_add(state.regs[rs2 as usize]);
    state.regs[rd as usize] = v;
    Ok(())
}

/// C.SUB: `rd -= rs2`.
pub fn exec_c_sub(rd: u8, rs2: u8, state: &mut CoreState) -> (r: Result<(), ExecuteError>)
    requires
        rd < 32,
        rs2 < 32,
    ensures
        same_but_regs(*old(state), *final(state)),
        r is Ok,
        final(state).regs@ == old(state).regs@.update(
            rd as int,
            old(state).regs@[rd as int].wrapping_sub(old(state).regs@[rs2 as int]),
        ),
{
    let v = state.regs[rd as usize].wrapping_sub(state.regs[rs2 as usize]);
    state.regs[rd as usize] = v;
    Ok(())
}

/// C.XOR: `rd ^= rs2`.
pub fn exec_c_xor(rd: u8, rs2: u8, state: &mut CoreState) -> (r: Result<(), ExecuteError>)
    requires
        rd < 32,
        rs2 < 32,
    ensures
        same_but_regs(*old(state), *final(state)),
        r is Ok,
        final(state).regs@ == old(state).regs@.update(
            rd as int,
            old(state).regs@[rd as int] ^ old(state).regs@[rs2 as int],
        ),
{
    let v = state.regs[rd as usize] ^ state.regs[rs2 as usize];
    state.regs[rd as usize] = v;
    Ok(())
}

/// C.OR: `rd |= rs2`.
pub fn exec_c_or(rd: u8, rs2: u8, state: &mut CoreState) -> (r: Result<(), ExecuteError>)
    requires
        rd < 32,
        rs2 < 32,
    ensures
        same_but_regs(*old(state), *final(state)),
        r is Ok,
        final(state).regs@ == old(state).regs@.update(
            rd as int,
            old(state).regs@[rd as int] | old(state).regs@[rs2 as int],
        ),
{
    let v = state.regs[rd as usize] | state.regs[rs2 as usize];
    state.regs[rd as usize] = v;
    Ok(())
}

/// C.AND: `rd &= rs2`.
pub fn exec_c_and(rd: u8, rs2: u8, state: &mut CoreState) -> (r: Result<(), ExecuteError>)
    requires
        rd < 32,
        rs2 < 32,
    ensures
        same_but_regs(*old(state), *final(state)),
        r is Ok,
        final(state).regs@ == old(state).regs@.update(
            rd as int,
            old(state).regs@[rd as int] & old(state).regs@[rs2 as int],
        ),
{
    let v = state.regs[rd as usize] & state.regs[rs2 as usize];
    state.regs[rd as usize] = v;
    Ok(())
}

} // verus!
