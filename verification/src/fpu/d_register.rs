//! Double-precision register values (raw IEEE-754 binary64 bits).
use vstd::prelude::*;
use super::nan_boxing::{exponent_field, significand_field};
use crate::text::{hex16, hex_prefix, join_text};

verus! {

/// A double-precision register value.
#[derive(Debug, Clone, Copy, PartialEq, Eq, Structural)]
pub struct Dpr(u64);

impl View for Dpr {
    type V = u64;

    closed spec fn view(&self) -> u64 {
        self.0
    }
}

impl Default for Dpr {
    /// The bits of +0.0.
    fn default() -> (r: Self)
        ensures
            r@ == 0,
    {
        Dpr(0)
    }
}

/// Whether a binary64 pattern is a NaN (maximal exponent, nonzero significand).
pub open spec fn is_nan64(bits: u64) -> bool {
    exponent_field(bits) == 0x7FF && significand_field(bits) != 0
}

impl Dpr {
    /// The debugging text of the register: `0x` and its sixteen lowercase
    /// hexadecimal digits.
    pub fn debug_text(&self) -> (r: String)
        ensures
            r@ == "0x"@ + hex_prefix(self@, 16),
    {
        let digits = hex16(self.0);
        join_text("0x", digits.as_str())
    }

    /// A register holding exactly `bits`.
    pub fn from_bits(bits: u64) -> (r: Self)
        ensures
            r@ == bits,
    {
        Dpr(bits)
    }

    /// The raw bits.
    pub fn bits(&self) -> (r: u64)
        ensures
            r == self@,
    {
        self.0
    }

    /// The canonical quiet NaN, 0x7FF8_0000_0000_0000.
    pub fn canonical_nan() -> (r: Self)
        ensures
            r@ == 0x7FF8_0000_0000_0000u64,
    {
        Dpr(0x7FF8_0000_0000_0000u64)
    }

    /// The NaN produced by invalid operations (the canonical NaN).
    pub fn default_nan() -> (r: Self)
        ensures
            r@ == 0x7FF8_0000_0000_0000u64,
    {
        Self::canonical_nan()
    }

    /// Whether the value is a quiet NaN (maximal exponent, significand MSB,
    /// bit 51, set).
    pub fn is_quiet_nan(&self) -> (r: bool)
        ensures
            r == (exponent_field(self@) == 0x7FF && significand_field(self@) & 0x8_0000_0000_0000u64 != 0),
    {
        let exp = (self.0 >> 52) & 0x7FF;
        let significand = self.0 & 0x000F_FFFF_FFFF_FFFFu64;
        exp == 0x7FF && (significand & 0x8_0000_0000_0000u64) != 0
    }

    /// Whether the value is a signaling NaN (a NaN whose significand MSB is clear).
    pub fn is_signaling_nan(&self) -> (r: bool)
        ensures
            r == (is_nan64(self@) && significand_field(self@) & 0x8_0000_0000_0000u64 == 0),
    {
        let bits = self.0;
        let exp = (bits >> 52) & 0x7FF;
        let significand = bits & 0x000F_FFFF_FFFF_FFFFu64;
        exp == 0x7FF && significand != 0 && (significand & 0x8_0000_0000_0000u64) == 0
    }

    /// Whether the bits are those of +0.0.
    pub fn is_positive_zero(&self) -> (r: bool)
        ensures
            r == (self@ == 0),
    {
        self.0 == 0
    }

    /// Whether the bits are those of -0.0.
    pub fn is_negative_zero(&self) -> (r: bool)
        ensures
            r == (self@ == 0x8000_0000_0000_0000u64),
    {
        self.0 == 0x8000_0000_0000_0000u64
    }
}

/// Register-file access to double-precision values.
pub trait DRegisterFile {
    /// Reads a register as a double.
    fn read_d(&self, reg: usize) -> Dpr;

    /// Writes a double into a register.
    fn write_d(&mut self, reg: usize, value: Dpr);

    /// Reads a register's raw bits.
    fn read_u64(&self, reg: usize) -> u64;

    /// Writes a register's raw bits.
    fn write_u64(&mut self, reg: usize, value: u64);
}

} // verus!
