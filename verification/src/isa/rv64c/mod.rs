//! RV64C: 16-bit compressed instructions.
pub mod c0_float;
pub mod c0_quadw;
pub mod c1_addiw;
pub mod c1_arith;
pub mod c1_branch;
pub mod c1_jump;
pub mod c1_shift;
pub mod c1_zero;
pub mod c2_move;
pub mod c2_stack;
pub mod decoder_16bit;

pub use c0_float::{exec_c_fld, exec_c_flw, exec_c_fsd, exec_c_fsw};
pub use c0_quadw::{exec_c_addi4spn, exec_c_ld, exec_c_lw, exec_c_sd, exec_c_sw};
pub use c1_addiw::{exec_c_addiw, exec_c_addw, exec_c_subw};
pub use c1_arith::{
    exec_c_add, exec_c_addi, exec_c_addi16sp, exec_c_and, exec_c_andi, exec_c_li, exec_c_lui,
    exec_c_mv, exec_c_or, exec_c_sub, exec_c_xor,
};
pub use c1_branch::{exec_c_beqz, exec_c_bnez};
pub use c1_jump::{exec_c_j, exec_c_jal};
pub use c1_shift::{exec_c_srai, exec_c_srli};
pub use c1_zero::exec_c_nop;
pub use c2_move::{exec_c_ebreak, exec_c_jalr, exec_c_jr};
pub use c2_stack::{exec_c_ldsp, exec_c_lwsp, exec_c_sdsp, exec_c_slli, exec_c_swsp};
pub use decoder_16bit::{COpcode, CQuadrant, CompressedDecoder};

use vstd::prelude::*;
use crate::cpu::CoreState;
use crate::execute::{ExecuteError, Executor, execute_post};
use crate::memory::SimpleMemory;
use decoder_16bit::decode_16bit_spec;

verus! {

/// Whether an instruction word is a 16-bit compressed encoding.
pub fn is_compressed(instruction: u32) -> (r: bool)
    ensures
        r == decoder_16bit::compressed(instruction),
{
    CompressedDecoder::is_compressed(instruction)
}

/// The length in bits (16 or 32) of the instruction a word begins.
pub fn instruction_length(instruction: u32) -> (r: u8)
    ensures
        r == (if decoder_16bit::compressed(instruction) {
            16u8
        } else {
            32u8
        }),
{
    CompressedDecoder::instruction_length(instruction)
}

/// Decodes and executes one 16-bit instruction: an encoding that does not
/// decode is an invalid operation that changes nothing; otherwise the
/// executor's effect on the expanded instruction.
pub fn execute_compressed(inst: u16, state: &mut CoreState, mem: &mut SimpleMemory) -> (r: Result<
    (),
    ExecuteError,
>)
    ensures
        match decode_16bit_spec(inst) {
            Ok(d) => execute_post(d, *old(state), *final(state), *old(mem), *final(mem), r),
            Err(_) => r == Err::<(), ExecuteError>(ExecuteError::InvalidOperation) && *final(state)
                == *old(state) && *final(mem) == *old(mem),
        },
{
    let decoder = CompressedDecoder::new();
    let decoded = match decoder.decode_16bit(inst) {
        Ok(d) => d,
        Err(_) => return Err(ExecuteError::InvalidOperation),
    };
    let mut executor = Executor::new();
    executor.execute(&decoded, state, mem)
}

} // verus!
