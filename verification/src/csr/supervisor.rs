//! Supervisor-level CSR addresses.
use vstd::prelude::*;

verus! {

/// Supervisor status.
pub const SSTATUS: u16 = 0x100;
/// Supervisor interrupt enable.
pub const SIE: u16 = 0x104;
/// Supervisor trap-vector base address.
pub const STVEC: u16 = 0x105;
/// Supervisor scratch.
pub const SSCRATCH: u16 = 0x140;
/// Supervisor exception program counter.
pub const SEPC: u16 = 0x141;
/// Supervisor trap cause.
pub const SCAUSE: u16 = 0x142;
/// Supervisor trap value.
pub const STVAL: u16 = 0x143;
/// Supervisor address translation and protection.
pub const SATP: u16 = 0x180;

} // verus!
