//! Execution errors and the instruction dispatcher.
use vstd::prelude::*;
use crate::csr::CsrError;
use crate::decode::DecodeError;
use crate::memory::{MemoryError, SimpleMemory};
use crate::cpu::CoreState;
use crate::decode::{DecodedInstruction, Funct3, Opcode};
use crate::isa::rv64a::dispatch::{amo_typed_post, execute_amo_typed};
use crate::isa::rv64d::compare::{CompareKind, compare_effect, exec_feq_d, exec_fle_d, exec_flt_d};
use crate::isa::rv64i::{exec_fence, exec_op_32, exec_op_imm_32, lemma_rv64i_keeps_x0, rv64i_post};
use crate::isa::rv64i::fence::fence_post;
use crate::isa::rv64i::op32::{op_32_post, op_imm_32_post};
use crate::isa::rv64m::mul::{mul_post, mulh_post, mulhsu_post, mulhu_post};
use crate::isa::rv64m::{exec_mul, exec_mulh, exec_mulhsu, exec_mulhu};

verus! {

/// Why an instruction did not complete.
#[derive(Debug, Clone, PartialEq, Eq)]
pub enum ExecuteError {
    /// The decoded fields do not form an operation this executor supports.
    InvalidOperation,
    /// A reserved or illegal encoding.
    IllegalInstruction,
    /// ECALL.
    Ecall,
    /// EBREAK.
    Ebreak,
    /// A misaligned address and the required alignment.
    MisalignedAccess(u64, u32),
    /// The memory access failed.
    MemoryError(MemoryError),
    /// The CSR access failed.
    CsrError(CsrError),
    /// The instruction word could not be decoded.
    DecodeError(DecodeError),
}

/// The comparison an OP-FP instruction performs: FCMP.D (funct7 0x51)
/// with funct3 000 (FLE), 001 (FLT) or 010 (FEQ), when its register fields
/// are present.
pub open spec fn fp_compare_kind(instr: DecodedInstruction) -> Option<CompareKind> {
    if instr.funct7 == Some(0x51u8) && instr.rs1 is Some && instr.rs2 is Some && instr.rd is Some {
        match instr.funct3 {
            Some(Funct3::AddSub) => Some(CompareKind::Le),
            Some(Funct3::Sll) => Some(CompareKind::Lt),
            Some(Funct3::Slt) => Some(CompareKind::Eq),
            _ => None,
        }
    } else {
        None
    }
}

/// What the executor does with one decoded instruction: the word
/// operations, the multiplications (OP with funct7 1), FENCE, the AMO
/// major opcode and the double-precision comparisons have their own
/// effects; every other opcode is executed as RV64I.
pub open spec fn execute_post(
    instr: DecodedInstruction,
    s0: CoreState,
    s1: CoreState,
    m0: SimpleMemory,
    m1: SimpleMemory,
    r: Result<(), ExecuteError>,
) -> bool {
    let unchanged_invalid = r == Err::<(), ExecuteError>(ExecuteError::InvalidOperation) && s1 == s0
        && m1 == m0;
    match instr.opcode {
        Opcode::OpImm32 => op_imm_32_post(instr, s0, s1, m0, m1, r),
        Opcode::Op32 => op_32_post(instr, s0, s1, m0, m1, r),
        Opcode::MiscMem => fence_post(instr, s0, s1, m0, m1, r),
        Opcode::Amo => amo_typed_post(instr, s0, s1, m0, m1, r),
        Opcode::OpFp => match fp_compare_kind(instr) {
            Some(kind) => r is Ok && m1 == m0 && compare_effect(kind, instr, s0, s1),
            None => unchanged_invalid,
        },
        Opcode::Op => if instr.funct7 == Some(1u8) {
            match instr.funct3 {
                Some(Funct3::AddSub) => mul_post(instr, s0, s1, m0, m1, r),
                Some(Funct3::Sll) => mulh_post(instr, s0, s1, m0, m1, r),
                Some(Funct3::Slt) => mulhsu_post(instr, s0, s1, m0, m1, r),
                Some(Funct3::Sltu) => mulhu_post(instr, s0, s1, m0, m1, r),
                _ => unchanged_invalid,
            }
        } else {
            rv64i_post(instr, s0, s1, m0, m1, r)
        },
        _ => rv64i_post(instr, s0, s1, m0, m1, r),
    }
}

/// Executes decoded instructions against a core state and a memory.
#[derive(Debug, Clone, Copy)]
pub struct Executor;

impl Executor {
    /// Creates an executor.
    pub fn new() -> (r: Self) {
        Executor
    }

    /// Executes one decoded instruction.
    pub fn execute(&mut self, instr: &DecodedInstruction, state: &mut CoreState, mem: &mut SimpleMemory) -> (r:
        Result<(), ExecuteError>)
        requires
            instr.wf(),
        ensures
            execute_post(*instr, *old(state), *final(state), *old(mem), *final(mem), r),
    {
        match instr.opcode {
            Opcode::OpImm32 => exec_op_imm_32(instr, state, mem),
            Opcode::Op32 => exec_op_32(instr, state, mem),
            Opcode::MiscMem => exec_fence(instr, state, mem),
            Opcode::Amo => execute_amo_typed(instr, state, mem),
            Opcode::OpFp => {
                if instr.funct7 == Some(0x51u8) && instr.rs1.is_some() && instr.rs2.is_some()
                    && instr.rd.is_some() {
                    match instr.funct3 {
                        Some(Funct3::AddSub) => exec_fle_d(instr, state, mem),
                        Some(Funct3::Sll) => exec_flt_d(instr, state, mem),
                        Some(Funct3::Slt) => exec_feq_d(instr, state, mem),
                        _ => Err(ExecuteError::InvalidOperation),
                    }
                } else {
                    Err(ExecuteError::InvalidOperation)
                }
            },
            Opcode::Op => {
                if instr.funct7 == Some(1u8) {
                    match instr.funct3 {
                        Some(Funct3::AddSub) => exec_mul(instr, state, mem),
                        Some(Funct3::Sll) => exec_mulh(instr, state, mem),
                        Some(Funct3::Slt) => exec_mulhsu(instr, state, mem),
                        Some(Funct3::Sltu) => exec_mulhu(instr, state, mem),
                        _ => Err(ExecuteError::InvalidOperation),
                    }
                } else {
                    crate::isa::rv64i::execute(instr, state, mem)
                }
            },
            _ => crate::isa::rv64i::execute(instr, state, mem),
        }
    }
}

/// No instruction makes x0 read anything but zero: a state whose x0 reads
/// zero executes to one whose x0 reads zero, whatever the outcome.  The
/// floating-point comparisons are the exception: they write their result
/// to `rd` even when `rd` is x0, so those are left out.
pub proof fn lemma_execute_keeps_x0(
    instr: DecodedInstruction,
    s0: CoreState,
    s1: CoreState,
    m0: SimpleMemory,
    m1: SimpleMemory,
    r: Result<(), ExecuteError>,
)
    requires
        instr.wf(),
        !(instr.opcode == Opcode::OpFp && instr.rd == Some(0u8)),
        s0.regs@[0] == 0,
        execute_post(instr, s0, s1, m0, m1, r),
    ensures
        s1.regs@[0] == 0,
{
    assert(s0.regs@.len() == 32);
    match instr.opcode {
        Opcode::OpImm32 => { assert(op_imm_32_post(instr, s0, s1, m0, m1, r)); assert(s1.regs@[0] == 0); },
        Opcode::Op32 => { assert(op_32_post(instr, s0, s1, m0, m1, r)); assert(s1.regs@[0] == 0); },
        Opcode::MiscMem => { assert(fence_post(instr, s0, s1, m0, m1, r)); assert(s1.regs@[0] == 0); },
        Opcode::Amo => { assert(amo_typed_post(instr, s0, s1, m0, m1, r)); assert(s1.regs@[0] == 0); },
        Opcode::OpFp => { assert(s1.regs@[0] == 0); },
        Opcode::Op => if instr.funct7 == Some(1u8) {
            match instr.funct3 {
                Some(Funct3::AddSub) => { assert(mul_post(instr, s0, s1, m0, m1, r)); assert(s1.regs@[0] == 0); },
                Some(Funct3::Sll) => { assert(mulh_post(instr, s0, s1, m0, m1, r)); assert(s1.regs@[0] == 0); },
                Some(Funct3::Slt) => { assert(mulhsu_post(instr, s0, s1, m0, m1, r)); assert(s1.regs@[0] == 0); },
                Some(Funct3::Sltu) => { assert(mulhu_post(instr, s0, s1, m0, m1, r)); assert(s1.regs@[0] == 0); },
                _ => {},
            }
        } else {
            lemma_rv64i_keeps_x0(instr, s0, s1, m0, m1, r);
        },
        _ => lemma_rv64i_keeps_x0(instr, s0, s1, m0, m1, r),
    }
}

} // verus!
