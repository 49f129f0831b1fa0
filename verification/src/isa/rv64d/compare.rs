//! FEQ.D, FLT.D and FLE.D: compare two binary64 values held in the
//! floating-point registers and write 1 or 0 to an integer register.
//!
//! The comparisons follow IEEE 754 on the raw bit patterns: a NaN operand
//! makes every comparison false and raises the invalid-operation flag, and
//! +0 equals -0.
use vstd::prelude::*;
use crate::cpu::CoreState;
use crate::decode::DecodedInstruction;
use crate::execute::ExecuteError;
use crate::fpu::d_register::is_nan64;
use crate::fpu::fcsr::FpFlags;
use crate::memory::SimpleMemory;

verus! {

/// Whether a binary64 pattern is +0 or -0.
pub open spec fn is_zero64(bits: u64) -> bool {
    bits & 0x7FFF_FFFF_FFFF_FFFFu64 == 0
}

/// Whether the sign bit of a binary64 pattern is set.
pub open spec fn sign64(bits: u64) -> bool {
    bits >> 63u64 == 1
}

/// IEEE equality of two binary64 patterns.
pub open spec fn f64_eq(a: u64, b: u64) -> bool {
    !is_nan64(a) && !is_nan64(b) && (a == b || (is_zero64(a) && is_zero64(b)))
}

/// IEEE less-than of two binary64 patterns: sign-magnitude order, with the
/// two zeros equal and NaN unordered.
pub open spec fn f64_lt(a: u64, b: u64) -> bool {
    if is_nan64(a) || is_nan64(b) || (is_zero64(a) && is_zero64(b)) {
        false
    } else if sign64(a) && !sign64(b) {
        true
    } else if !sign64(a) && sign64(b) {
        false
    } else if sign64(a) {
        a > b
    } else {
        a < b
    }
}

/// IEEE less-or-equal of two binary64 patterns.
pub open spec fn f64_le(a: u64, b: u64) -> bool {
    f64_lt(a, b) || f64_eq(a, b)
}

/// Which comparison an instruction performs.
pub enum CompareKind {
    Eq,
    Lt,
    Le,
}

/// The outcome of a comparison of `a` and `b`.
pub open spec fn compare_spec(kind: CompareKind, a: u64, b: u64) -> bool {
    match kind {
        CompareKind::Eq => f64_eq(a, b),
        CompareKind::Lt => f64_lt(a, b),
        CompareKind::Le => f64_le(a, b),
    }
}

fn is_nan_bits(bits: u64) -> (r: bool)
    ensures
        r == is_nan64(bits),
{
    (bits >> 52) & 0x7FF == 0x7FF && bits & 0x000F_FFFF_FFFF_FFFF != 0
}

fn compare_bits(kind: &CompareKind, a: u64, b: u64) -> (r: bool)
    ensures
        r == compare_spec(*kind, a, b),
{
    let nan = is_nan_bits(a) || is_nan_bits(b);
    let zeros = a & 0x7FFF_FFFF_FFFF_FFFF == 0 && b & 0x7FFF_FFFF_FFFF_FFFF == 0;
    let eq = !nan && (a == b || zeros);
    let sa = a >> 63 == 1;
    let sb = b >> 63 == 1;
    let lt = if nan || zeros {
        false
    } else if sa && !sb {
        true
    } else if !sa && sb {
        false
    } else if sa {
        a > b
    } else {
        a < b
    };
    match kind {
        CompareKind::Eq => eq,
        CompareKind::Lt => lt,
        CompareKind::Le => lt || eq,
    }
}

proof fn lemma_sign_bits(x: u64, y: u64)
    by (bit_vector)
    ensures
        (x >> 63u64 == 1) == (x >= 0x8000_0000_0000_0000u64),
        (x & 0x7FFF_FFFF_FFFF_FFFFu64 == 0) == (x == 0 || x == 0x8000_0000_0000_0000u64),
        ((x ^ 0x8000_0000_0000_0000u64) >= 0x8000_0000_0000_0000u64) == (x < 0x8000_0000_0000_0000u64),
        (x ^ 0x8000_0000_0000_0000u64) & 0x7FFF_FFFF_FFFF_FFFFu64 == x & 0x7FFF_FFFF_FFFF_FFFFu64,
        ((x ^ 0x8000_0000_0000_0000u64) >> 52u64) & 0x7FF == (x >> 52u64) & 0x7FF,
        (x ^ 0x8000_0000_0000_0000u64) & 0x000F_FFFF_FFFF_FFFFu64 == x & 0x000F_FFFF_FFFF_FFFFu64,
        ((x ^ 0x8000_0000_0000_0000u64) == (y ^ 0x8000_0000_0000_0000u64)) == (x == y),
        (x >= 0x8000_0000_0000_0000u64) == (y >= 0x8000_0000_0000_0000u64) ==> ((x
            ^ 0x8000_0000_0000_0000u64) < (y ^ 0x8000_0000_0000_0000u64)) == (x < y),
        !((x >> 52u64) & 0x7FF == 0x7FF && x & 0x000F_FFFF_FFFF_FFFFu64 != 0) ==> (x
            < 0x8000_0000_0000_0000u64 ==> x <= 0x7FF0_0000_0000_0000u64) && x
            <= 0xFFF0_0000_0000_0000u64,
        x == 0x7FF0_0000_0000_0000u64 || x == 0xFFF0_0000_0000_0000u64 ==> (x >> 52u64) & 0x7FF
            == 0x7FF && x & 0x000F_FFFF_FFFF_FFFFu64 == 0,
{
}

/// FLT.D and FEQ.D order binary64 values as IEEE 754 does.  A NaN operand
/// makes every comparison false.  Otherwise less-than is irreflexive,
/// asymmetric and transitive, and exactly one of `a < b`, `a == b`,
/// `b < a` holds (so less-than excludes equality); equality is reflexive
/// and symmetric; and less-or-equal holds exactly when neither operand is a
/// NaN and `b < a` does not.
pub proof fn lemma_compare_order(a: u64, b: u64, c: u64)
    ensures
        is_nan64(a) || is_nan64(b) ==> !compare_spec(CompareKind::Eq, a, b) && !compare_spec(
            CompareKind::Lt,
            a,
            b,
        ) && !compare_spec(CompareKind::Le, a, b),
        !compare_spec(CompareKind::Lt, a, a),
        !(compare_spec(CompareKind::Lt, a, b) && compare_spec(CompareKind::Lt, b, a)),
        compare_spec(CompareKind::Lt, a, b) ==> !compare_spec(CompareKind::Eq, a, b),
        !is_nan64(a) && !is_nan64(b) ==> compare_spec(CompareKind::Lt, a, b) || compare_spec(
            CompareKind::Eq,
            a,
            b,
        ) || compare_spec(CompareKind::Lt, b, a),
        !is_nan64(a) ==> compare_spec(CompareKind::Eq, a, a),
        compare_spec(CompareKind::Eq, a, b) == compare_spec(CompareKind::Eq, b, a),
        compare_spec(CompareKind::Le, a, b) == (!is_nan64(a) && !is_nan64(b) && !compare_spec(
            CompareKind::Lt,
            b,
            a,
        )),
        compare_spec(CompareKind::Lt, a, b) && compare_spec(CompareKind::Lt, b, c) ==> compare_spec(
            CompareKind::Lt,
            a,
            c,
        ),
{
    lemma_sign_bits(a, b);
    lemma_sign_bits(b, c);
    lemma_sign_bits(c, a);
}

/// Among non-negative binary64 values (sign bit clear, not NaN) the order
/// of the values is the order of their bit patterns, and negating both
/// operands (flipping their sign bits) reverses less-than and keeps
/// equality: `a < b` exactly when `-b < -a`.
pub proof fn lemma_compare_magnitudes(a: u64, b: u64)
    ensures
        !is_nan64(a) && !is_nan64(b) && a < 0x8000_0000_0000_0000 && b < 0x8000_0000_0000_0000
            ==> compare_spec(CompareKind::Lt, a, b) == (a < b) && compare_spec(CompareKind::Eq, a, b)
            == (a == b),
        compare_spec(CompareKind::Lt, a, b) == compare_spec(
            CompareKind::Lt,
            b ^ 0x8000_0000_0000_0000,
            a ^ 0x8000_0000_0000_0000,
        ),
        compare_spec(CompareKind::Eq, a, b) == compare_spec(
            CompareKind::Eq,
            a ^ 0x8000_0000_0000_0000,
            b ^ 0x8000_0000_0000_0000,
        ),
{
    lemma_sign_bits(a, b);
    lemma_sign_bits(b, a);
    lemma_sign_bits(a ^ 0x8000_0000_0000_0000, b ^ 0x8000_0000_0000_0000);
    lemma_sign_bits(b ^ 0x8000_0000_0000_0000, a ^ 0x8000_0000_0000_0000);
}

/// What a comparison instruction leaves in the state: `rd` holds 1 or 0
/// (x0 included, as the register file is written directly), and a NaN
/// operand accrues the invalid-operation flag.
pub open spec fn compare_effect(
    kind: CompareKind,
    instr: DecodedInstruction,
    s0: CoreState,
    s1: CoreState,
) -> bool {
    let a = s0.fpr@[instr.rs1->0 as int];
    let b = s0.fpr@[instr.rs2->0 as int];
    let nan = is_nan64(a) || is_nan64(b);
    &&& s1.regs@ == s0.regs@.update(
        instr.rd->0 as int,
        if compare_spec(kind, a, b) {
            1u64
        } else {
            0u64
        },
    )
    &&& s1.fcsr.frm_spec() == s0.fcsr.frm_spec()
    &&& s1.fcsr.reserved_spec() == s0.fcsr.reserved_spec()
    &&& nan ==> s1.fcsr.flags_spec().value() == s0.fcsr.flags_spec().value() | 1u8
    &&& !nan ==> s1.fcsr.flags_spec() == s0.fcsr.flags_spec()
    &&& s1.pc == s0.pc
    &&& s1.fpr == s0.fpr
    &&& s1.csr == s0.csr
    &&& s1.privilege == s0.privilege
    &&& s1.branch_taken == s0.branch_taken
    &&& s1.reservation == s0.reservation
}

/// The infinities are not NaNs, and every value that is not a NaN lies
/// between them: `-inf <= a <= +inf`, strictly unless `a` is that
/// infinity.
pub proof fn lemma_compare_infinities(a: u64)
    ensures
        !is_nan64(0x7FF0_0000_0000_0000),
        !is_nan64(0xFFF0_0000_0000_0000),
        !is_nan64(a) ==> compare_spec(CompareKind::Le, a, 0x7FF0_0000_0000_0000) && compare_spec(
            CompareKind::Le,
            0xFFF0_0000_0000_0000,
            a,
        ),
        !is_nan64(a) && a != 0x7FF0_0000_0000_0000 ==> compare_spec(
            CompareKind::Lt,
            a,
            0x7FF0_0000_0000_0000,
        ),
        !is_nan64(a) && a != 0xFFF0_0000_0000_0000 ==> compare_spec(
            CompareKind::Lt,
            0xFFF0_0000_0000_0000,
            a,
        ),
{
    lemma_sign_bits(a, 0);
    lemma_sign_bits(0x7FF0_0000_0000_0000, 0);
    lemma_sign_bits(0xFFF0_0000_0000_0000, 0);
}

/// FLT.D of a register with itself writes 0 to `rd`, whatever it holds.
pub proof fn lemma_flt_same_register(instr: DecodedInstruction, s0: CoreState, s1: CoreState)
    requires
        instr.wf(),
        instr.rd is Some,
        instr.rs1 == instr.rs2,
        compare_effect(CompareKind::Lt, instr, s0, s1),
    ensures
        s1.regs@[instr.rd->0 as int] == 0,
{
    lemma_compare_order(s0.fpr@[instr.rs1->0 as int], s0.fpr@[instr.rs1->0 as int], 0);
}

fn exec_compare(kind: CompareKind, instr: &DecodedInstruction, state: &mut CoreState)
    requires
        instr.wf(),
        instr.rs1 is Some,
        instr.rs2 is Some,
        instr.rd is Some,
    ensures
        compare_effect(kind, *instr, *old(state), *final(state)),
{
    let rs1 = instr.rs1.unwrap();
    let rs2 = instr.rs2.unwrap();
    let rd = instr.rd.unwrap();
    proof {
        state.fpr.lemma_len();
    }
    let a = state.fpr.read(rs1 as usize).bits();
    let b = state.fpr.read(rs2 as usize).bits();
    assert((rs1 as usize) % 32 == rs1 as usize);
    assert((rs2 as usize) % 32 == rs2 as usize);
    if is_nan_bits(a) || is_nan_bits(b) {
        state.fcsr.set_flag(FpFlags::nv());
    }
    let v: u64 = if compare_bits(&kind, a, b) {
        1
    } else {
        0
    };
    state.regs[rd as usize] = v;
}

/// Executes FEQ.D: `rd` = 1 when `rs1` and `rs2` are equal doubles.
pub fn exec_feq_d(instr: &DecodedInstruction, state: &mut CoreState, _mem: &mut SimpleMemory) -> (r:
    Result<(), ExecuteError>)
    requires
        instr.wf(),
        instr.rs1 is Some,
        instr.rs2 is Some,
        instr.rd is Some,
    ensures
        r is Ok,
        compare_effect(CompareKind::Eq, *instr, *old(state), *final(state)),
        *final(_mem) == *old(_mem),
{
    exec_compare(CompareKind::Eq, instr, state);
    Ok(())
}

/// Executes FLT.D: `rd` = 1 when `rs1` is less than `rs2`.
pub fn exec_flt_d(instr: &DecodedInstruction, state: &mut CoreState, _mem: &mut SimpleMemory) -> (r:
    Result<(), ExecuteError>)
    requires
        instr.wf(),
        instr.rs1 is Some,
        instr.rs2 is Some,
        instr.rd is Some,
    ensures
        r is Ok,
        compare_effect(CompareKind::Lt, *instr, *old(state), *final(state)),
        *final(_mem) == *old(_mem),
{
    exec_compare(CompareKind::Lt, instr, state);
    Ok(())
}

/// Executes FLE.D: `rd` = 1 when `rs1` is less than or equal to `rs2`.
pub fn exec_fle_d(instr: &DecodedInstruction, state: &mut CoreState, _mem: &mut SimpleMemory) -> (r:
    Result<(), ExecuteError>)
    requires
        instr.wf(),
        instr.rs1 is Some,
        instr.rs2 is Some,
        instr.rd is Some,
    ensures
        r is Ok,
        compare_effect(CompareKind::Le, *instr, *old(state), *final(state)),
        *final(_mem) == *old(_mem),
{
    exec_compare(CompareKind::Le, instr, state);
    Ok(())
}

} // verus!
