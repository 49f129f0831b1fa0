//! RV64I: the base integer instruction set.
pub mod alu;
pub mod branch;
pub mod fence;
pub mod jump;
pub mod load;
pub mod lui_auipc;
pub mod op32;
pub mod shift;
pub mod store;
pub mod system;

pub use alu::{exec_op, exec_op_imm};
pub use branch::exec_branch;
pub use fence::exec_fence;
pub use jump::{exec_jal, exec_jalr};
pub use load::exec_load;
pub use lui_auipc::{exec_auipc, exec_lui};
pub use op32::{exec_op_32, exec_op_imm_32};
pub use shift::{exec_shift, exec_shift_imm};
pub use store::exec_store;
pub use system::{exec_mret, exec_sret, exec_system, exec_uret};

use vstd::prelude::*;
use crate::cpu::CoreState;
use crate::decode::{DecodedInstruction, Funct3, Opcode};
use crate::execute::ExecuteError;
use crate::memory::SimpleMemory;
use alu::{op_imm_post, op_post};
use branch::branch_post;
use jump::{jal_post, jalr_post};
use load::load_post;
use lui_auipc::{auipc_post, lui_post};
use shift::{shift_imm_post, shift_post};
use store::store_post;
use system::system_post;

verus! {

/// Whether a `funct3` selects a shift (SLL or SRL/SRA).
pub open spec fn is_shift_funct3(f: Funct3) -> bool {
    f == Funct3::Sll || f == Funct3::SrlSra
}

/// What `execute` does with an RV64I instruction: the effect of the
/// instruction its opcode (and, for OP and OP-IMM, its `funct3`) selects;
/// any other opcode, or a missing `funct3`, is an invalid operation that
/// changes nothing.
pub open spec fn rv64i_post(
    instr: DecodedInstruction,
    s0: CoreState,
    s1: CoreState,
    m0: SimpleMemory,
    m1: SimpleMemory,
    r: Result<(), ExecuteError>,
) -> bool {
    match instr.opcode {
        Opcode::Lui => lui_post(instr, s0, s1, m0, m1, r),
        Opcode::Auipc => auipc_post(instr, s0, s1, m0, m1, r),
        Opcode::Jal => jal_post(instr, s0, s1, m0, m1, r),
        Opcode::Jalr => jalr_post(instr, s0, s1, m0, m1, r),
        Opcode::Branch => branch_post(instr, s0, s1, m0, m1, r),
        Opcode::Load => load_post(instr, s0, s1, m0, m1, r),
        Opcode::Store => store_post(instr, s0, s1, m0, m1, r),
        Opcode::OpImm => match instr.funct3 {
            Some(f) => if is_shift_funct3(f) {
                shift_imm_post(instr, s0, s1, m0, m1, r)
            } else {
                op_imm_post(instr, s0, s1, m0, m1, r)
            },
            None => r == Err::<(), ExecuteError>(ExecuteError::InvalidOperation) && s1 == s0 && m1
                == m0,
        },
        Opcode::Op => match instr.funct3 {
            Some(f) => if is_shift_funct3(f) {
                shift_post(instr, s0, s1, m0, m1, r)
            } else {
                op_post(instr, s0, s1, m0, m1, r)
            },
            None => r == Err::<(), ExecuteError>(ExecuteError::InvalidOperation) && s1 == s0 && m1
                == m0,
        },
        Opcode::System => system_post(instr, s0, s1, m0, m1, r),
        _ => r == Err::<(), ExecuteError>(ExecuteError::InvalidOperation) && s1 == s0 && m1 == m0,
    }
}

/// An RV64I instruction leaves x0 reading zero.
pub proof fn lemma_rv64i_keeps_x0(
    instr: DecodedInstruction,
    s0: CoreState,
    s1: CoreState,
    m0: SimpleMemory,
    m1: SimpleMemory,
    r: Result<(), ExecuteError>,
)
    requires
        instr.wf(),
        s0.regs@[0] == 0,
        rv64i_post(instr, s0, s1, m0, m1, r),
    ensures
        s1.regs@[0] == 0,
{
    assert(s0.regs@.len() == 32);
    match instr.opcode {
        Opcode::Lui => assert(lui_post(instr, s0, s1, m0, m1, r)),
        Opcode::Auipc => assert(auipc_post(instr, s0, s1, m0, m1, r)),
        Opcode::Jal => assert(jal_post(instr, s0, s1, m0, m1, r)),
        Opcode::Jalr => assert(jalr_post(instr, s0, s1, m0, m1, r)),
        Opcode::Branch => assert(branch_post(instr, s0, s1, m0, m1, r)),
        Opcode::Load => assert(load_post(instr, s0, s1, m0, m1, r)),
        Opcode::Store => assert(store_post(instr, s0, s1, m0, m1, r)),
        Opcode::System => assert(system_post(instr, s0, s1, m0, m1, r)),
        _ => {},
    }
}

/// Executes one RV64I instruction, dispatching on its opcode.
pub fn execute(instr: &DecodedInstruction, state: &mut CoreState, mem: &mut SimpleMemory) -> (r:
    Result<(), ExecuteError>)
    requires
        instr.wf(),
    ensures
        rv64i_post(*instr, *old(state), *final(state), *old(mem), *final(mem), r),
{
    match instr.opcode {
        Opcode::Lui => exec_lui(instr, state, mem),
        Opcode::Auipc => exec_auipc(instr, state, mem),
        Opcode::Jal => exec_jal(instr, state, mem),
        Opcode::Jalr => exec_jalr(instr, state, mem),
        Opcode::Branch => exec_branch(instr, state, mem),
        Opcode::Load => exec_load(instr, state, mem),
        Opcode::Store => exec_store(instr, state, mem),
        Opcode::OpImm => match instr.funct3 {
            Some(Funct3::Sll) | Some(Funct3::SrlSra) => exec_shift_imm(instr, state, mem),
            Some(_) => exec_op_imm(instr, state, mem),
            None => Err(ExecuteError::InvalidOperation),
        },
        Opcode::Op => match instr.funct3 {
            Some(Funct3::Sll) | Some(Funct3::SrlSra) => exec_shift(instr, state, mem),
            Some(_) => exec_op(instr, state, mem),
            None => Err(ExecuteError::InvalidOperation),
        },
        Opcode::System => exec_system(instr, state, mem),
        _ => Err(ExecuteError::InvalidOperation),
    }
}

} // verus!
