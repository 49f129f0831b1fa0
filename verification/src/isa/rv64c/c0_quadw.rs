//! Compressed C0-quadrant integer instructions: C.ADDI4SPN, C.LW, C.LD,
//! C.SW, C.SD.  Loads and stores check natural alignment of the effective
//! address before touching memory.
use vstd::prelude::*;
use crate::arith::{sext32, sign_extend_32};
use crate::cpu::{CoreState, same_but_regs};
use crate::execute::ExecuteError;
use crate::memory::{MemoryInterface, SimpleMemory, access_check, checked, le32, le64, store_le};

verus! {

/// The effective address `base + offset` (offset zero-extended).
pub open spec fn c_addr(base: u64, offset: u32) -> u64 {
    base.wrapping_add(offset as u64)
}

/// The effect of a compressed integer load of `w` (4 or 8) bytes into `rd`.
pub open spec fn c_load_effect(
    rd: u8,
    a: u64,
    w: nat,
    s0: CoreState,
    m0: Seq<u8>,
    s1: CoreState,
    r: Result<(), ExecuteError>,
) -> bool {
    &&& same_but_regs(s0, s1)
    &&& if a % (w as u64) != 0 {
        r == Err::<(), ExecuteError>(ExecuteError::MisalignedAccess(a, w as u32)) && s1.regs
            == s0.regs
    } else {
        let v = if w == 4 {
            checked(access_check(m0.len(), a, 4), sext32(le32(m0, a as int)))
        } else {
            checked(access_check(m0.len(), a, 8), le64(m0, a as int))
        };
        match v {
            Ok(x) => r is Ok && s1.regs@ == s0.regs@.update(rd as int, x),
            Err(e) => r == Err::<(), ExecuteError>(ExecuteError::MemoryError(e)) && s1.regs
                == s0.regs,
        }
    }
}

/// The effect of a compressed store of the low `w` (4 or 8) bytes of `v`.
pub open spec fn c_store_effect(
    a: u64,
    w: nat,
    v: u64,
    m0: Seq<u8>,
    m1: Seq<u8>,
    r: Result<(), ExecuteError>,
) -> bool {
    if a % (w as u64) != 0 {
        r == Err::<(), ExecuteError>(ExecuteError::MisalignedAccess(a, w as u32)) && m1 == m0
    } else {
        match access_check(m0.len(), a, w) {
            Ok(()) => r is Ok && m1 == store_le(m0, a as int, w as int, v),
            Err(e) => r == Err::<(), ExecuteError>(ExecuteError::MemoryError(e)) && m1 == m0,
        }
    }
}

/// Stores the low word of `value`, describing the written bytes by `value`.
pub(crate) fn store_word(mem: &mut SimpleMemory, a: u64, value: u64) -> (r: Result<(), ExecuteError>)
    ensures
        match access_check(old(mem)@.len(), a, 4) {
            Ok(()) => r is Ok && final(mem)@ == store_le(old(mem)@, a as int, 4, value),
            Err(e) => r == Err::<(), ExecuteError>(ExecuteError::MemoryError(e)) && final(mem)@
                == old(mem)@,
        },
{
    let res = mem.write_word(a, value as u32);
    proof {
        assert(res is Ok ==> final(mem)@ =~= store_le(old(mem)@, a as int, 4, value)) by {
            crate::memory::lemma_narrow_bytes(value);
        }
    }
    match res {
        Ok(()) => Ok(()),
        Err(e) => Err(ExecuteError::MemoryError(e)),
    }
}

/// C.ADDI4SPN: `rd = sp + imm`; a zero immediate is rejected.
pub fn exec_c_addi4spn(rd: u8, imm: u32, state: &mut CoreState) -> (r: Result<(), ExecuteError>)
    requires
        rd < 32,
    ensures
        same_but_regs(*old(state), *final(state)),
        imm == 0 ==> r == Err::<(), ExecuteError>(ExecuteError::InvalidOperation) && final(state).regs == old(state).regs,
        imm != 0 ==> r is Ok && final(state).regs@ == old(state).regs@.update(
            rd as int,
            old(state).regs@[2].wrapping_add(imm as u64),
        ),
{
    if imm == 0 {
        return Err(ExecuteError::InvalidOperation);
    }
    let v = state.regs[2].wrapping_add(imm as u64);
    state.regs[rd as usize] = v;
    Ok(())
}

/// C.LW: `rd = sext32(mem32[rs1 + offset])`.
pub fn exec_c_lw(rd: u8, rs1: u8, offset: u32, state: &mut CoreState, mem: &mut SimpleMemory) -> (r:
    Result<(), ExecuteError>)
    requires
        rd < 32,
        rs1 < 32,
    ensures
        *final(mem) == *old(mem),
        c_load_effect(
            rd,
            c_addr(old(state).regs@[rs1 as int], offset),
            4,
            *old(state),
            old(mem)@,
            *final(state),
            r,
        ),
{
    let a = state.regs[rs1 as usize].wrapping_add(offset as u64);
    if a % 4 != 0 {
        return Err(ExecuteError::MisalignedAccess(a, 4));
    }
    let v = match mem.read_word(a) {
        Ok(v) => v,
        Err(e) => return Err(ExecuteError::MemoryError(e)),
    };
    state.regs[rd as usize] = sign_extend_32(v);
    Ok(())
}

/// C.LD: `rd = mem64[rs1 + offset]`.
pub fn exec_c_ld(rd: u8, rs1: u8, offset: u32, state: &mut CoreState, mem: &mut SimpleMemory) -> (r:
    Result<(), ExecuteError>)
    requires
        rd < 32,
        rs1 < 32,
    ensures
        *final(mem) == *old(mem),
        c_load_effect(
            rd,
            c_addr(old(state).regs@[rs1 as int], offset),
            8,
            *old(state),
            old(mem)@,
            *final(state),
            r,
        ),
{
    let a = state.regs[rs1 as usize].wrapping_add(offset as u64);
    if a % 8 != 0 {
        return Err(ExecuteError::MisalignedAccess(a, 8));
    }
    let v = match mem.read_dword(a) {
        Ok(v) => v,
        Err(e) => return Err(ExecuteError::MemoryError(e)),
    };
    state.regs[rd as usize] = v;
    Ok(())
}

/// C.SW: `mem32[rs1 + offset] = rs2[31:0]`.
pub fn exec_c_sw(rs1: u8, rs2: u8, offset: u32, state: &mut CoreState, mem: &mut SimpleMemory) -> (r:
    Result<(), ExecuteError>)
    requires
        rs1 < 32,
        rs2 < 32,
    ensures
        *final(state) == *old(state),
        c_store_effect(
            c_addr(old(state).regs@[rs1 as int], offset),
            4,
            old(state).regs@[rs2 as int],
            old(mem)@,
            final(mem)@,
            r,
        ),
{
    let a = state.regs[rs1 as usize].wrapping_add(offset as u64);
    if a % 4 != 0 {
        return Err(ExecuteError::MisalignedAccess(a, 4));
    }
    store_word(mem, a, state.regs[rs2 as usize])
}

/// C.SD: `mem64[rs1 + offset] = rs2`.
pub fn exec_c_sd(rs1: u8, rs2: u8, offset: u32, state: &mut CoreState, mem: &mut SimpleMemory) -> (r:
    Result<(), ExecuteError>)
    requires
        rs1 < 32,
        rs2 < 32,
    ensures
        *final(state) == *old(state),
        c_store_effect(
            c_addr(old(state).regs@[rs1 as int], offset),
            8,
            old(state).regs@[rs2 as int],
            old(mem)@,
            final(mem)@,
            r,
        ),
{
    let a = state.regs[rs1 as usize].wrapping_add(offset as u64);
    if a % 8 != 0 {
        return Err(ExecuteError::MisalignedAccess(a, 8));
    }
    match mem.write_dword(a, state.regs[rs2 as usize]) {
        Ok(()) => Ok(()),
        Err(e) => Err(ExecuteError::MemoryError(e)),
    }
}

} // verus!
