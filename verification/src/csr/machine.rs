//! Machine-level CSR addresses.
use vstd::prelude::*;

verus! {

/// Machine status.
pub const MSTATUS: u16 = 0x300;
/// Machine ISA.
pub const MISA: u16 = 0x301;
/// Machine interrupt enable.
pub const MIE: u16 = 0x304;
/// Machine trap-vector base address.
pub const MTVEC: u16 = 0x305;
/// Machine scratch.
pub const MSCRATCH: u16 = 0x340;
/// Machine exception program counter.
pub const MEPC: u16 = 0x341;
/// Machine trap cause.
pub const MCAUSE: u16 = 0x342;
/// Machine trap value.
pub const MTVAL: u16 = 0x343;
/// Machine interrupt pending.
pub const MIP: u16 = 0x344;
/// Hart ID (read-only).
pub const MHARTID: u16 = 0xF14;

} // verus!
