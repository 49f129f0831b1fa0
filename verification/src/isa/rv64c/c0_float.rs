//! Compressed floating-point loads and stores: C.FLD, C.FLW, C.FSD, C.FSW.
//! The 3-bit register fields name x8..x15 and f8..f15.
use vstd::prelude::*;
use crate::cpu::CoreState;
use crate::execute::ExecuteError;
use crate::fpu::{Fpr, fpr_index};
use crate::fpu::nan_boxing::NAN_BOX_MASK;
use crate::memory::{MemoryInterface, SimpleMemory, access_check, checked, le32, le64};
use super::c0_quadw::{c_addr, c_store_effect, store_word};

verus! {

/// The full register number of a 3-bit compressed register field.
pub open spec fn creg(r: u8) -> u8 {
    ((r & 7) + 8) as u8
}

/// Everything but the floating-point registers is unchanged.
pub open spec fn same_but_fpr(a: CoreState, b: CoreState) -> bool {
    &&& a.pc == b.pc
    &&& a.regs == b.regs
    &&& a.fcsr == b.fcsr
    &&& a.csr == b.csr
    &&& a.privilege == b.privilege
    &&& a.branch_taken == b.branch_taken
    &&& a.reservation == b.reservation
}

/// The effect of a compressed floating-point load of `w` bytes into `f[rd]`.
pub open spec fn c_fload_effect(
    rd: u8,
    a: u64,
    w: nat,
    s0: CoreState,
    m0: Seq<u8>,
    s1: CoreState,
    r: Result<(), ExecuteError>,
) -> bool {
    &&& same_but_fpr(s0, s1)
    &&& if a % (w as u64) != 0 {
        r == Err::<(), ExecuteError>(ExecuteError::MisalignedAccess(a, w as u32)) && s1.fpr
            == s0.fpr
    } else {
        let v = if w == 4 {
            checked(access_check(m0.len(), a, 4), NAN_BOX_MASK | le32(m0, a as int) as u64)
        } else {
            checked(access_check(m0.len(), a, 8), le64(m0, a as int))
        };
        match v {
            Ok(x) => r is Ok && s1.fpr@ == s0.fpr@.update(rd as int, x),
            Err(e) => r == Err::<(), ExecuteError>(ExecuteError::MemoryError(e)) && s1.fpr
                == s0.fpr,
        }
    }
}

proof fn lemma_creg(r: u8)
    ensures
        (r & 7) < 8,
        8 <= creg(r) < 16,
        fpr_index(creg(r) as usize) == creg(r) as int,
{
    assert((r & 7) < 8) by (bit_vector);
}

/// C.FLD: `f[8 + rd'] = mem64[x[8 + rs1'] + offset]`.
pub fn exec_c_fld(rd: u8, rs1: u8, offset: u32, state: &mut CoreState, mem: &mut SimpleMemory) -> (r:
    Result<(), ExecuteError>)
    ensures
        *final(mem) == *old(mem),
        c_fload_effect(
            creg(rd),
            c_addr(old(state).regs@[creg(rs1) as int], offset),
            8,
            *old(state),
            old(mem)@,
            *final(state),
            r,
        ),
{
    proof {
        lemma_creg(rd);
        lemma_creg(rs1);
        state.fpr.lemma_len();
    }
    let rs1_full = (rs1 & 0x7) + 8;
    let rd_full = (rd & 0x7) + 8;
    let a = state.regs[rs1_full as usize].wrapping_add(offset as u64);
    if a % 8 != 0 {
        return Err(ExecuteError::MisalignedAccess(a, 8));
    }
    let v = match mem.read_dword(a) {
        Ok(v) => v,
        Err(e) => return Err(ExecuteError::MemoryError(e)),
    };
    state.fpr.write(rd_full as usize, Fpr::from_bits(v));
    Ok(())
}

/// C.FLW: `f[8 + rd']` receives the NaN-boxed word `mem32[x[8 + rs1'] + offset]`.
pub fn exec_c_flw(rd: u8, rs1: u8, offset: u32, state: &mut CoreState, mem: &mut SimpleMemory) -> (r:
    Result<(), ExecuteError>)
    ensures
        *final(mem) == *old(mem),
        c_fload_effect(
            creg(rd),
            c_addr(old(state).regs@[creg(rs1) as int], offset),
            4,
            *old(state),
            old(mem)@,
            *final(state),
            r,
        ),
{
    proof {
        lemma_creg(rd);
        lemma_creg(rs1);
        state.fpr.lemma_len();
    }
    let rs1_full = (rs1 & 0x7) + 8;
    let rd_full = (rd & 0x7) + 8;
    let a = state.regs[rs1_full as usize].wrapping_add(offset as u64);
    if a % 4 != 0 {
        return Err(ExecuteError::MisalignedAccess(a, 4));
    }
    let v = match mem.read_word(a) {
        Ok(v) => v,
        Err(e) => return Err(ExecuteError::MemoryError(e)),
    };
    state.fpr.write(rd_full as usize, Fpr::boxed(v));
    Ok(())
}

/// C.FSD: `mem64[x[8 + rs1'] + offset] = f[8 + rs2']`.
pub fn exec_c_fsd(rs1: u8, rs2: u8, offset: u32, state: &mut CoreState, mem: &mut SimpleMemory) -> (r:
    Result<(), ExecuteError>)
    ensures
        *final(state) == *old(state),
        c_store_effect(
            c_addr(old(state).regs@[creg(rs1) as int], offset),
            8,
            old(state).fpr@[creg(rs2) as int],
            old(mem)@,
            final(mem)@,
            r,
        ),
{
    proof {
        lemma_creg(rs1);
        lemma_creg(rs2);
        state.fpr.lemma_len();
    }
    let rs1_full = (rs1 & 0x7) + 8;
    let rs2_full = (rs2 & 0x7) + 8;
    let a = state.regs[rs1_full as usize].wrapping_add(offset as u64);
    if a % 8 != 0 {
        return Err(ExecuteError::MisalignedAccess(a, 8));
    }
    let bits = state.fpr.read(rs2_full as usize).bits();
    match mem.write_dword(a, bits) {
        Ok(()) => Ok(()),
        Err(e) => Err(ExecuteError::MemoryError(e)),
    }
}

/// C.FSW: `mem32[x[8 + rs1'] + offset] = f[8 + rs2'][31:0]`.
pub fn exec_c_fsw(rs1: u8, rs2: u8, offset: u32, state: &mut CoreState, mem: &mut SimpleMemory) -> (r:
    Result<(), ExecuteError>)
    ensures
        *final(state) == *old(state),
        c_store_effect(
            c_addr(old(state).regs@[creg(rs1) as int], offset),
            4,
            old(state).fpr@[creg(rs2) as int],
            old(mem)@,
            final(mem)@,
            r,
        ),
{
    proof {
        lemma_creg(rs1);
        lemma_creg(rs2);
        state.fpr.lemma_len();
    }
    let rs1_full = (rs1 & 0x7) + 8;
    let rs2_full = (rs2 & 0x7) + 8;
    let a = state.regs[rs1_full as usize].wrapping_add(offset as u64);
    if a % 4 != 0 {
        return Err(ExecuteError::MisalignedAccess(a, 4));
    }
    let bits = state.fpr.read(rs2_full as usize).bits();
    store_word(mem, a, bits)
}

} // verus!
