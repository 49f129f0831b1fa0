//! RV64M multiplication: MUL, MULH, MULHU, MULHSU.
use vstd::prelude::*;
use crate::arith::signed64;
use crate::cpu::{CoreState, reg_write, same_but_regs};
use crate::decode::DecodedInstruction;
use crate::execute::ExecuteError;
use crate::memory::SimpleMemory;

verus! {

/// The upper 64 bits of a 128-bit two's-complement product `p`.
pub open spec fn high_word(p: int) -> u64 {
    ((p / 0x1_0000_0000_0000_0000) % 0x1_0000_0000_0000_0000) as u64
}

/// The register fields of an R-type multiply are all present.
pub open spec fn mul_fields(instr: DecodedInstruction) -> bool {
    instr.rs1 is Some && instr.rs2 is Some && instr.rd is Some
}

/// `p + 2^127` represented in 128 bits gives the upper word of `p`.
proof fn lemma_high_from_offset(p: int, pu: u128)
    requires
        pu == p + 0x8000_0000_0000_0000_0000_0000_0000_0000,
    ensures
        (pu / 0x1_0000_0000_0000_0000u128) < 0x1_0000_0000_0000_0000,
        ((pu / 0x1_0000_0000_0000_0000u128) as u64).wrapping_sub(0x8000_0000_0000_0000u64)
            == high_word(p),
{
    let d: int = 0x1_0000_0000_0000_0000;
    let k: int = 0x8000_0000_0000_0000;
    assert(pu as int == p + k * d);
    assert((p + k * d) / d == p / d + k) by (nonlinear_arith)
        requires
            d == 0x1_0000_0000_0000_0000,
    ;
}

/// The upper word of a 128-bit product, from the product offset by 2^127.
fn high_from_offset(pu: u128, Ghost(p): Ghost<int>) -> (r: u64)
    requires
        pu == p + 0x8000_0000_0000_0000_0000_0000_0000_0000,
    ensures
        r == high_word(p),
{
    proof {
        lemma_high_from_offset(p, pu);
    }
    ((pu / 0x1_0000_0000_0000_0000u128) as u64).wrapping_sub(0x8000_0000_0000_0000u64)
}

/// `signed64(a) * signed64(b) + 2^127`, which lies in `[0, 2^128)`.
fn signed_product_offset(a: u64, b: u64) -> (r: u128)
    ensures
        r == signed64(a) * signed64(b) + 0x8000_0000_0000_0000_0000_0000_0000_0000,
{
    let half: u128 = 0x8000_0000_0000_0000_0000_0000_0000_0000;
    let a_neg = a >= 0x8000_0000_0000_0000;
    let b_neg = b >= 0x8000_0000_0000_0000;
    let ma: u128 = if a_neg {
        0x1_0000_0000_0000_0000u128 - a as u128
    } else {
        a as u128
    };
    let mb: u128 = if b_neg {
        0x1_0000_0000_0000_0000u128 - b as u128
    } else {
        b as u128
    };
    assert(ma * mb <= 0x4000_0000_0000_0000_0000_0000_0000_0000) by (nonlinear_arith)
        requires
            ma <= 0x8000_0000_0000_0000,
            mb <= 0x8000_0000_0000_0000,
    ;
    let m = ma * mb;
    proof {
        if a_neg == b_neg {
            assert(signed64(a) * signed64(b) == ma * mb) by (nonlinear_arith)
                requires
                    (signed64(a) == ma && signed64(b) == mb) || (signed64(a) == -ma && signed64(b)
                        == -mb),
            ;
        } else {
            assert(signed64(a) * signed64(b) == -(ma * mb)) by (nonlinear_arith)
                requires
                    (signed64(a) == ma && signed64(b) == -mb) || (signed64(a) == -ma && signed64(b)
                        == mb),
            ;
        }
    }
    if a_neg == b_neg {
        half + m
    } else {
        half - m
    }
}

/// `signed64(a) * b + 2^127`, which lies in `[0, 2^128)`.
fn mixed_product_offset(a: u64, b: u64) -> (r: u128)
    ensures
        r == signed64(a) * (b as int) + 0x8000_0000_0000_0000_0000_0000_0000_0000,
{
    let half: u128 = 0x8000_0000_0000_0000_0000_0000_0000_0000;
    let a_neg = a >= 0x8000_0000_0000_0000;
    let ma: u128 = if a_neg {
        0x1_0000_0000_0000_0000u128 - a as u128
    } else {
        a as u128
    };
    let mb = b as u128;
    assert(ma * mb < 0x8000_0000_0000_0000_0000_0000_0000_0000) by (nonlinear_arith)
        requires
            ma <= 0x8000_0000_0000_0000,
            mb < 0x1_0000_0000_0000_0000,
    ;
    let m = ma * mb;
    proof {
        if a_neg {
            assert(signed64(a) * (b as int) == -(ma * mb)) by (nonlinear_arith)
                requires
                    signed64(a) == -ma,
                    mb == b,
            ;
        } else {
            assert(signed64(a) * (b as int) == ma * mb) by (nonlinear_arith)
                requires
                    signed64(a) == ma,
                    mb == b,
            ;
        }
    }
    if a_neg {
        half - m
    } else {
        half + m
    }
}

/// What `exec_mul` leaves in the state and the memory, and what it returns.
pub open spec fn mul_post(
    instr: DecodedInstruction,
    s0: CoreState,
    s1: CoreState,
    m0: SimpleMemory,
    m1: SimpleMemory,
    r: Result<(), ExecuteError>,
) -> bool {
    &&& m1 == m0
    &&& same_but_regs(s0, s1)
    &&& mul_fields(instr) ==> r is Ok && s1.regs@ == reg_write(
        s0.regs@,
        instr.rd->0,
        s0.regs@[instr.rs1->0 as int].wrapping_mul(s0.regs@[instr.rs2->0 as int]),
    )
    &&& !mul_fields(instr) ==> r == Err::<(), ExecuteError>(ExecuteError::InvalidOperation)
        && s1.regs == s0.regs
}

/// Executes MUL: `rd` receives the low 64 bits of `rs1 * rs2`.
pub fn exec_mul(instr: &DecodedInstruction, state: &mut CoreState, _mem: &mut SimpleMemory) -> (r:
    Result<(), ExecuteError>)
    requires
        instr.wf(),
    ensures
        mul_post(*instr, *old(state), *final(state), *old(_mem), *final(_mem), r),
{
    let (rs1, rs2, rd) = match (instr.rs1, instr.rs2, instr.rd) {
        (Some(rs1), Some(rs2), Some(rd)) => (rs1, rs2, rd),
        _ => return Err(ExecuteError::InvalidOperation),
    };
    let result = state.regs[rs1 as usize].wrapping_mul(state.regs[rs2 as usize]);
    state.write_reg(rd, result);
    Ok(())
}

/// What `exec_mulh` leaves in the state and the memory, and what it returns.
pub open spec fn mulh_post(
    instr: DecodedInstruction,
    s0: CoreState,
    s1: CoreState,
    m0: SimpleMemory,
    m1: SimpleMemory,
    r: Result<(), ExecuteError>,
) -> bool {
    &&& m1 == m0
    &&& same_but_regs(s0, s1)
    &&& mul_fields(instr) ==> r is Ok && s1.regs@ == reg_write(
        s0.regs@,
        instr.rd->0,
        high_word(
            signed64(s0.regs@[instr.rs1->0 as int]) * signed64(
                s0.regs@[instr.rs2->0 as int],
            ),
        ),
    )
    &&& !mul_fields(instr) ==> r == Err::<(), ExecuteError>(ExecuteError::InvalidOperation)
        && s1.regs == s0.regs
}

/// Executes MULH: `rd` receives the upper 64 bits of the signed product.
pub fn exec_mulh(instr: &DecodedInstruction, state: &mut CoreState, _mem: &mut SimpleMemory) -> (r:
    Result<(), ExecuteError>)
    requires
        instr.wf(),
    ensures
        mulh_post(*instr, *old(state), *final(state), *old(_mem), *final(_mem), r),
{
    let (rs1, rs2, rd) = match (instr.rs1, instr.rs2, instr.rd) {
        (Some(rs1), Some(rs2), Some(rd)) => (rs1, rs2, rd),
        _ => return Err(ExecuteError::InvalidOperation),
    };
    let a = state.regs[rs1 as usize];
    let b = state.regs[rs2 as usize];
    let pu = signed_product_offset(a, b);
    let result = high_from_offset(pu, Ghost(signed64(a) * signed64(b)));
    state.write_reg(rd, result);
    Ok(())
}

/// What `exec_mulhu` leaves in the state and the memory, and what it returns.
pub open spec fn mulhu_post(
    instr: DecodedInstruction,
    s0: CoreState,
    s1: CoreState,
    m0: SimpleMemory,
    m1: SimpleMemory,
    r: Result<(), ExecuteError>,
) -> bool {
    &&& m1 == m0
    &&& same_but_regs(s0, s1)
    &&& mul_fields(instr) ==> r is Ok && s1.regs@ == reg_write(
        s0.regs@,
        instr.rd->0,
        high_word(
            s0.regs@[instr.rs1->0 as int] as int * s0.regs@[instr.rs2->0 as int] as int,
        ),
    )
    &&& !mul_fields(instr) ==> r == Err::<(), ExecuteError>(ExecuteError::InvalidOperation)
        && s1.regs == s0.regs
}

/// Executes MULHU: `rd` receives the upper 64 bits of the unsigned product.
pub fn exec_mulhu(instr: &DecodedInstruction, state: &mut CoreState, _mem: &mut SimpleMemory) -> (r:
    Result<(), ExecuteError>)
    requires
        instr.wf(),
    ensures
        mulhu_post(*instr, *old(state), *final(state), *old(_mem), *final(_mem), r),
{
    let (rs1, rs2, rd) = match (instr.rs1, instr.rs2, instr.rd) {
        (Some(rs1), Some(rs2), Some(rd)) => (rs1, rs2, rd),
        _ => return Err(ExecuteError::InvalidOperation),
    };
    let a = state.regs[rs1 as usize] as u128;
    let b = state.regs[rs2 as usize] as u128;
    assert(a * b <= 0xFFFF_FFFF_FFFF_FFFE_0000_0000_0000_0001) by (nonlinear_arith)
        requires
            a < 0x1_0000_0000_0000_0000,
            b < 0x1_0000_0000_0000_0000,
    ;
    let p = a * b;
    let q = p / 0x1_0000_0000_0000_0000u128;
    assert(q < 0x1_0000_0000_0000_0000);
    let result = q as u64;
    state.write_reg(rd, result);
    Ok(())
}

/// What `exec_mulhsu` leaves in the state and the memory, and what it returns.
pub open spec fn mulhsu_post(
    instr: DecodedInstruction,
    s0: CoreState,
    s1: CoreState,
    m0: SimpleMemory,
    m1: SimpleMemory,
    r: Result<(), ExecuteError>,
) -> bool {
    &&& m1 == m0
    &&& same_but_regs(s0, s1)
    &&& mul_fields(instr) ==> r is Ok && s1.regs@ == reg_write(
        s0.regs@,
        instr.rd->0,
        high_word(
            signed64(s0.regs@[instr.rs1->0 as int]) * (s0.regs@[instr.rs2->0 as int] as int),
        ),
    )
    &&& !mul_fields(instr) ==> r == Err::<(), ExecuteError>(ExecuteError::InvalidOperation)
        && s1.regs == s0.regs
}

/// Executes MULHSU: `rd` receives the upper 64 bits of signed `rs1` times
/// unsigned `rs2`.
pub fn exec_mulhsu(instr: &DecodedInstruction, state: &mut CoreState, _mem: &mut SimpleMemory) -> (r:
    Result<(), ExecuteError>)
    requires
        instr.wf(),
    ensures
        mulhsu_post(*instr, *old(state), *final(state), *old(_mem), *final(_mem), r),
{
    let (rs1, rs2, rd) = match (instr.rs1, instr.rs2, instr.rd) {
        (Some(rs1), Some(rs2), Some(rd)) => (rs1, rs2, rd),
        _ => return Err(ExecuteError::InvalidOperation),
    };
    let a = state.regs[rs1 as usize];
    let b = state.regs[rs2 as usize];
    let pu = mixed_product_offset(a, b);
    let result = high_from_offset(pu, Ghost(signed64(a) * (b as int)));
    state.write_reg(rd, result);
    Ok(())
}

} // verus!
