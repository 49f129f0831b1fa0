//! The bits of a page table entry.
use vstd::prelude::*;

verus! {

/// Valid.
pub const V: u64 = 0x1;
/// Readable.
pub const R: u64 = 0x2;
/// Writable.
pub const W: u64 = 0x4;
/// Executable.
pub const X: u64 = 0x8;
/// Accessible in user mode.
pub const U: u64 = 0x10;
/// Global mapping.
pub const G: u64 = 0x20;
/// Accessed.
pub const A: u64 = 0x40;
/// Dirty.
pub const D: u64 = 0x80;
/// The two bits reserved for software (9:8).
pub const RSW_MASK: u64 = 0x300;
/// The physical page number (bits 53:10).
pub const PPN_MASK: u64 = 0x003F_FFFF_FFFF_FC00;

} // verus!
