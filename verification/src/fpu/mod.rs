//! Floating-point registers.
//!
//! Each of the 32 registers holds a raw 64-bit pattern.  A single-precision
//! value is NaN-boxed: its 32 bits sit in the low half and the upper half is
//! all ones.
use vstd::prelude::*;

pub mod d_register;
pub mod fcsr;
pub mod nan_boxing;

pub use fcsr::{Fcsr, FpFlags, RoundingMode};
use nan_boxing::NAN_BOX_MASK;
use crate::text::{hex16, hex_prefix, join_text};

verus! {

/// One floating-point register value (raw bits).
#[derive(Debug, Clone, Copy, PartialEq, Eq, Structural)]
pub struct Fpr(u64);

impl View for Fpr {
    type V = u64;

    closed spec fn view(&self) -> u64 {
        self.0
    }
}

impl Fpr {
    /// The debugging text of the register: `0x` and its sixteen lowercase
    /// hexadecimal digits.
    pub fn debug_text(&self) -> (r: String)
        ensures
            r@ == "0x"@ + hex_prefix(self@, 16),
    {
        let digits = hex16(self.0);
        join_text("0x", digits.as_str())
    }

    /// A register holding exactly `bits`.
    pub fn from_bits(bits: u64) -> (r: Self)
        ensures
            r@ == bits,
    {
        Fpr(bits)
    }

    /// The raw bits.
    pub fn bits(&self) -> (r: u64)
        ensures
            r == self@,
    {
        self.0
    }

    /// The low 32 bits.
    pub fn lower(&self) -> (r: u32)
        ensures
            r == self@ as u32,
    {
        self.0 as u32
    }

    /// Whether the upper 32 bits are all ones.
    pub fn is_nan_boxed(&self) -> (r: bool)
        ensures
            r == (self@ >> 32u64 == 0xFFFF_FFFFu64),
    {
        (self.0 >> 32) == 0xFFFF_FFFF
    }

    /// The NaN-boxed canonical single-precision NaN.
    pub fn canonical_nan() -> (r: Self)
        ensures
            r@ == 0xFFFF_FFFF_7FC0_0000u64,
    {
        Fpr(0xFFFF_FFFF_7FC0_0000u64)
    }

    /// The NaN produced by invalid operations (the canonical NaN).
    pub fn default_nan() -> (r: Self)
        ensures
            r@ == 0xFFFF_FFFF_7FC0_0000u64,
    {
        Self::canonical_nan()
    }

    /// A NaN-boxed single-precision value from its 32 bits.
    pub fn boxed(value: u32) -> (r: Self)
        ensures
            r@ == NAN_BOX_MASK | value as u64,
    {
        Fpr(NAN_BOX_MASK | value as u64)
    }
}

impl Default for Fpr {
    /// NaN-boxed +0.0.
    fn default() -> (r: Self)
        ensures
            r@ == NAN_BOX_MASK,
    {
        Fpr(NAN_BOX_MASK)
    }
}

/// The 32 floating-point registers.
#[derive(Debug, Clone, Copy)]
pub struct FpuRegisterFile {
    regs: [Fpr; 32],
}

impl View for FpuRegisterFile {
    type V = Seq<u64>;

    closed spec fn view(&self) -> Seq<u64> {
        Seq::new(32, |i: int| self.regs@[i]@)
    }
}

/// The register a 5-bit index selects: an index is reduced modulo 32.
pub open spec fn fpr_index(reg: usize) -> int {
    (reg % 32) as int
}

impl FpuRegisterFile {
    /// Thirty-two registers.
    pub proof fn lemma_len(&self)
        ensures
            self@.len() == 32,
    {
    }

    /// Every register holds NaN-boxed +0.0.
    pub fn new() -> (r: Self)
        ensures
            r@ == Seq::new(32, |i: int| NAN_BOX_MASK),
    {
        let r = FpuRegisterFile { regs: [Fpr(NAN_BOX_MASK); 32] };
        assert(r@ =~= Seq::new(32, |i: int| NAN_BOX_MASK));
        r
    }

    /// Returns every register to NaN-boxed +0.0.
    pub fn reset(&mut self)
        ensures
            final(self)@ == Seq::new(32, |i: int| NAN_BOX_MASK),
    {
        self.regs = [Fpr(NAN_BOX_MASK); 32];
        assert(self@ =~= Seq::new(32, |i: int| NAN_BOX_MASK));
    }

    /// Reads register `reg % 32`.
    pub fn read(&self, reg: usize) -> (r: Fpr)
        ensures
            r@ == self@[fpr_index(reg)],
    {
        assert((reg & 0x1F) == reg % 32) by (bit_vector);
        self.regs[reg & 0x1F]
    }

    /// Writes register `reg % 32`; writes to f0 are ignored.
    pub fn write(&mut self, reg: usize, value: Fpr)
        ensures
            fpr_index(reg) != 0 ==> final(self)@ == old(self)@.update(fpr_index(reg), value@),
            fpr_index(reg) == 0 ==> final(self)@ == old(self)@,
    {
        assert((reg & 0x1F) == reg % 32) by (bit_vector);
        let r = reg & 0x1F;
        if r != 0 {
            self.regs[r] = value;
        }
        assert(fpr_index(reg) != 0 ==> self@ =~= old(self)@.update(fpr_index(reg), value@));
        assert(fpr_index(reg) == 0 ==> self@ =~= old(self)@);
    }

    /// Writes a NaN-boxed single-precision pattern into register `reg % 32`
    /// (ignored for f0).
    pub fn write_u32(&mut self, reg: usize, value: u32)
        ensures
            fpr_index(reg) != 0 ==> final(self)@ == old(self)@.update(
                fpr_index(reg),
                NAN_BOX_MASK | value as u64,
            ),
            fpr_index(reg) == 0 ==> final(self)@ == old(self)@,
    {
        self.write(reg, Fpr::boxed(value));
    }

    /// The low 32 bits of register `reg % 32`.
    pub fn read_u32(&self, reg: usize) -> (r: u32)
        ensures
            r == self@[fpr_index(reg)] as u32,
    {
        self.read(reg).lower()
    }

    /// Whether `reg` names one of the 32 registers.
    pub fn is_valid_reg(reg: u32) -> (r: bool)
        ensures
            r == (reg < 32),
    {
        reg < 32
    }
}

impl Default for FpuRegisterFile {
    fn default() -> (r: Self)
        ensures
            r@ == Seq::new(32, |i: int| NAN_BOX_MASK),
    {
        Self::new()
    }
}

/// The addend of a fused multiply-add: negated (sign bit flipped) for the
/// subtracting variants.
pub fn effective_operand(rs3: Fpr, subtract: bool) -> (r: Fpr)
    ensures
        subtract ==> r@ == rs3@ ^ 0x8000_0000_0000_0000u64,
        !subtract ==> r@ == rs3@,
{
    if subtract {
        Fpr::from_bits(rs3.bits() ^ 0x8000_0000_0000_0000u64)
    } else {
        rs3
    }
}

} // verus!
