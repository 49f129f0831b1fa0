//! RV64I conditional branches.
use vstd::prelude::*;
use crate::arith::{lt_signed, sext13, sign_extend_13, signed64};
use crate::cpu::CoreState;
use crate::decode::{
    DecodedInstruction, Funct3, branch_encoding, decode_spec, lemma_branch_offset_round_trip,
};
use crate::execute::ExecuteError;
use crate::memory::SimpleMemory;

verus! {

/// Whether a branch with this `funct3` is taken: BEQ, BNE, BLT, BGE, BLTU,
/// BGEU; the two unassigned encodings are never taken.
pub open spec fn branch_taken_spec(f3: Funct3, a: u64, b: u64) -> bool {
    match f3 {
        Funct3::AddSub => a == b,
        Funct3::Sll => a != b,
        Funct3::Xor => signed64(a) < signed64(b),
        Funct3::SrlSra => signed64(a) >= signed64(b),
        Funct3::Or => a < b,
        Funct3::And => a >= b,
        _ => false,
    }
}

/// What `exec_branch` leaves in the state and the memory, and what it returns.
pub open spec fn branch_post(
    instr: DecodedInstruction,
    s0: CoreState,
    s1: CoreState,
    m0: SimpleMemory,
    m1: SimpleMemory,
    r: Result<(), ExecuteError>,
) -> bool {
    &&& m1 == m0
    &&& s1.regs == s0.regs
    &&& s1.fpr == s0.fpr
    &&& s1.fcsr == s0.fcsr
    &&& s1.csr == s0.csr
    &&& s1.privilege == s0.privilege
    &&& s1.reservation == s0.reservation
    &&& match (instr.rs1, instr.rs2, instr.imm, instr.funct3) {
        (Some(rs1), Some(rs2), Some(imm), Some(f3)) => r is Ok && if branch_taken_spec(
            f3,
            s0.regs@[rs1 as int],
            s0.regs@[rs2 as int],
        ) {
            s1.pc == s0.pc.wrapping_add(sext13(imm))
                && s1.branch_taken
        } else {
            s1.pc == s0.pc && s1.branch_taken
                == s0.branch_taken
        },
        _ => r == Err::<(), ExecuteError>(ExecuteError::InvalidOperation) && s1.pc
            == s0.pc && s1.branch_taken == s0.branch_taken,
    }
}

/// Executes a conditional branch.  A taken branch adds the sign-extended
/// 13-bit offset to the pc and sets `branch_taken`; an untaken branch
/// changes nothing.
pub fn exec_branch(instr: &DecodedInstruction, state: &mut CoreState, _mem: &mut SimpleMemory) -> (r:
    Result<(), ExecuteError>)
    requires
        instr.wf(),
    ensures
        branch_post(*instr, *old(state), *final(state), *old(_mem), *final(_mem), r),
{
    let (rs1, rs2, imm, funct3) = match (instr.rs1, instr.rs2, instr.imm, instr.funct3) {
        (Some(rs1), Some(rs2), Some(imm), Some(f3)) => (rs1, rs2, imm, f3),
        _ => return Err(ExecuteError::InvalidOperation),
    };
    let a = state.regs[rs1 as usize];
    let b = state.regs[rs2 as usize];
    let take = match funct3 {
        Funct3::AddSub => a == b,
        Funct3::Sll => a != b,
        Funct3::Xor => lt_signed(a, b),
        Funct3::SrlSra => !lt_signed(a, b),
        Funct3::Or => a < b,
        Funct3::And => a >= b,
        _ => false,
    };
    if take {
        state.pc = state.pc.wrapping_add(sign_extend_13(imm));
        state.branch_taken = true;
    }
    Ok(())
}

/// A taken branch: the pc moved by the sign-extended offset and the flag
/// is set.
pub open spec fn branch_jumped(s0: CoreState, s1: CoreState, imm: u32) -> bool {
    s1.pc == s0.pc.wrapping_add(sext13(imm)) && s1.branch_taken
}

/// An untaken branch: the pc and the flag are as they were.
pub open spec fn branch_stayed(s0: CoreState, s1: CoreState) -> bool {
    s1.pc == s0.pc && s1.branch_taken == s0.branch_taken
}

/// Each conditional branch compares its two source registers as the base
/// ISA defines: BEQ and BNE by equality, BLT and BGE by two's-complement
/// order, BLTU and BGEU by unsigned order, and jumps exactly when the
/// comparison holds.  So BGE never jumps from a negative `rs1` to a
/// non-negative `rs2`, while BGEU always does, and BLT jumps there.
pub proof fn lemma_branch_conditions(
    instr: DecodedInstruction,
    s0: CoreState,
    s1: CoreState,
    m0: SimpleMemory,
    m1: SimpleMemory,
    r: Result<(), ExecuteError>,
)
    requires
        branch_post(instr, s0, s1, m0, m1, r),
        instr.rs1 is Some,
        instr.rs2 is Some,
        instr.imm is Some,
        instr.funct3 is Some,
    ensures
        r is Ok,
        s1.regs == s0.regs,
        instr.funct3 == Some(Funct3::AddSub) ==> if s0.regs@[instr.rs1->0 as int]
            == s0.regs@[instr.rs2->0 as int] {
            branch_jumped(s0, s1, instr.imm->0)
        } else {
            branch_stayed(s0, s1)
        },
        instr.funct3 == Some(Funct3::Sll) ==> if s0.regs@[instr.rs1->0 as int]
            != s0.regs@[instr.rs2->0 as int] {
            branch_jumped(s0, s1, instr.imm->0)
        } else {
            branch_stayed(s0, s1)
        },
        instr.funct3 == Some(Funct3::Xor) ==> if signed64(s0.regs@[instr.rs1->0 as int])
            < signed64(s0.regs@[instr.rs2->0 as int]) {
            branch_jumped(s0, s1, instr.imm->0)
        } else {
            branch_stayed(s0, s1)
        },
        instr.funct3 == Some(Funct3::SrlSra) ==> if signed64(s0.regs@[instr.rs1->0 as int])
            >= signed64(s0.regs@[instr.rs2->0 as int]) {
            branch_jumped(s0, s1, instr.imm->0)
        } else {
            branch_stayed(s0, s1)
        },
        instr.funct3 == Some(Funct3::Or) ==> if s0.regs@[instr.rs1->0 as int]
            < s0.regs@[instr.rs2->0 as int] {
            branch_jumped(s0, s1, instr.imm->0)
        } else {
            branch_stayed(s0, s1)
        },
        instr.funct3 == Some(Funct3::And) ==> if s0.regs@[instr.rs1->0 as int]
            >= s0.regs@[instr.rs2->0 as int] {
            branch_jumped(s0, s1, instr.imm->0)
        } else {
            branch_stayed(s0, s1)
        },
        instr.funct3 == Some(Funct3::Slt) || instr.funct3 == Some(Funct3::Sltu) ==> branch_stayed(
            s0,
            s1,
        ),
        s0.regs@[instr.rs1->0 as int] >= 0x8000_0000_0000_0000 && s0.regs@[instr.rs2->0 as int]
            < 0x8000_0000_0000_0000 ==> (instr.funct3 == Some(Funct3::SrlSra) ==> branch_stayed(
            s0,
            s1,
        )) && (instr.funct3 == Some(Funct3::Xor) ==> branch_jumped(s0, s1, instr.imm->0)) && (
        instr.funct3 == Some(Funct3::And) ==> branch_jumped(s0, s1, instr.imm->0)),
{
}

/// Executing a branch decoded from the B-type encoding of an even offset in
/// [-2^12, 2^12) either leaves the pc where it was or moves it by exactly
/// that offset, modulo 2^64; a BEQ whose registers hold equal values always
/// moves it.
pub proof fn lemma_branch_moves_pc_by_offset(
    offset: int,
    rs1: u8,
    rs2: u8,
    f3: u32,
    s0: CoreState,
    s1: CoreState,
    m0: SimpleMemory,
    m1: SimpleMemory,
    r: Result<(), ExecuteError>,
)
    requires
        -0x1000 <= offset < 0x1000,
        offset % 2 == 0,
        rs1 < 32,
        rs2 < 32,
        f3 < 8,
        branch_post(decode_spec(branch_encoding(offset, rs1, rs2, f3))->Ok_0, s0, s1, m0, m1, r),
    ensures
        r is Ok,
        s1.pc == s0.pc || s1.pc as int == (s0.pc as int + offset) % 0x1_0000_0000_0000_0000,
        s1.branch_taken && !s0.branch_taken ==> s1.pc as int == (s0.pc as int + offset)
            % 0x1_0000_0000_0000_0000,
        f3 == 0 && s0.regs@[rs1 as int] == s0.regs@[rs2 as int] ==> s1.branch_taken && s1.pc as int
            == (s0.pc as int + offset) % 0x1_0000_0000_0000_0000,
{
    lemma_branch_offset_round_trip(offset, rs1, rs2, f3);
    let d = decode_spec(branch_encoding(offset, rs1, rs2, f3))->Ok_0;
    let e = sext13(d.imm->0);
    assert(signed64(e) == offset);
    if offset < 0 {
        assert(e as int == offset + 0x1_0000_0000_0000_0000);
    }
    lemma_branch_conditions(d, s0, s1, m0, m1, r);
}

} // verus!
