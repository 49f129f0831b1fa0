//! A RISC-V RV64 instruction-set simulator: instruction decoding, the
//! integer, multiply, atomic, compressed and floating-point register
//! semantics, flat memory, and the Sv39 address-translation structures.
use vstd::prelude::*;

pub mod arith;
pub mod decode;
pub mod memory;
pub mod fpu;
pub mod physical;
pub mod csr;
pub mod cpu;
pub mod execute;
pub mod isa;
pub mod hart_amods;
pub mod bus;
pub mod commit_log;
pub mod executor;
pub mod mmu;
pub mod text;
pub mod cli;
pub mod elf;

verus! {
} // verus!
