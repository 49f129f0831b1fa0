//! NaN-boxing of single-precision values in 64-bit registers.
//!
//! A single-precision value stored in a 64-bit register must have its upper
//! 32 bits all set; any other pattern read as single precision is treated as
//! the canonical NaN.  These functions classify register patterns and pick
//! the NaN an operation produces.
use vstd::prelude::*;
use super::d_register::is_nan64;
use crate::text::{hex16, hex_prefix, join_text};

verus! {

/// The upper-half marker of a NaN-boxed value.
pub const NAN_BOX_MASK: u64 = 0xFFFF_FFFF_0000_0000u64;

/// The upper 32 bits of a NaN-boxed value.
pub const NAN_BOX_UPPER: u64 = 0xFFFF_FFFFu64;

/// The canonical single-precision quiet NaN.
pub const CANONICAL_NAN_F32: u32 = 0x7FC0_0000u32;

/// The canonical double-precision quiet NaN.
pub const CANONICAL_NAN_F64: u64 = 0x7FF8_0000_0000_0000u64;

/// The NaN-boxed canonical single-precision NaN.
pub const NAN_BOXED_CANONICAL_NAN: u64 = 0xFFFF_FFFF_7FC0_0000u64;

/// How a 64-bit register pattern reads.
#[derive(Debug, Clone, Copy, PartialEq, Eq, Structural)]
pub enum NanBoxingResult {
    /// A properly NaN-boxed single-precision value.
    Valid,
    /// A double-precision value (normal, zero or infinity).
    DoublePrecision,
    /// Neither boxed nor a double.
    Invalid,
    /// A double-precision quiet NaN (not boxed).
    QuietNan,
    /// A double-precision signaling NaN (not boxed).
    SignalingNan,
}

/// The 11-bit binary64 exponent field.
pub open spec fn exponent_field(v: u64) -> u64 {
    (v >> 52u64) & 0x7FF
}

/// The 52-bit binary64 significand field.
pub open spec fn significand_field(v: u64) -> u64 {
    v & 0x000F_FFFF_FFFF_FFFFu64
}

/// Whether the upper 32 bits are all ones.
pub open spec fn boxed(v: u64) -> bool {
    v >> 32u64 == NAN_BOX_UPPER
}

/// Whether the pattern reads as a nonzero-exponent double that is not a NaN.
pub open spec fn double_like(v: u64) -> bool {
    exponent_field(v) != 0 && (exponent_field(v) != 0x7FF || significand_field(v) == 0)
}

/// The classification of a register pattern.
pub open spec fn classify(v: u64) -> NanBoxingResult {
    let e = exponent_field(v);
    let m = significand_field(v);
    if boxed(v) {
        NanBoxingResult::Valid
    } else if m == 0 && (e == 0 || e == 0x7FF) {
        NanBoxingResult::DoublePrecision
    } else if e == 0x7FF {
        if m & 0x8_0000_0000_0000u64 != 0 {
            NanBoxingResult::QuietNan
        } else {
            NanBoxingResult::SignalingNan
        }
    } else if double_like(v) {
        NanBoxingResult::DoublePrecision
    } else {
        NanBoxingResult::Invalid
    }
}

proof fn lemma_box_upper(f: u32)
    by (bit_vector)
    ensures
        (0xFFFF_FFFF_0000_0000u64 | (f as u64)) >> 32u64 == 0xFFFF_FFFFu64,
        (0xFFFF_FFFF_0000_0000u64 | (f as u64)) as u32 == f,
{
}

/// NaN-boxing any single-precision pattern (setting the upper 32 bits)
/// gives a register value that reads as a valid single whose low word is
/// that pattern; a value reads as a valid single exactly when its upper 32
/// bits are all ones; and a value that is not boxed reads as a quiet or a
/// signaling NaN exactly when it is a binary64 NaN.
pub proof fn lemma_boxing_classification(f: u32, v: u64)
    ensures
        classify(NAN_BOX_MASK | (f as u64)) == NanBoxingResult::Valid,
        (NAN_BOX_MASK | (f as u64)) as u32 == f,
        (classify(v) == NanBoxingResult::Valid) == (v >> 32u64 == 0xFFFF_FFFFu64),
        !boxed(v) ==> ((classify(v) == NanBoxingResult::QuietNan || classify(v)
            == NanBoxingResult::SignalingNan) == is_nan64(v)),
{
    lemma_box_upper(f);
}

/// Whether the upper 32 bits are all ones.
pub fn is_nan_boxed(value: u64) -> (r: bool)
    ensures
        r == boxed(value),
{
    (value >> 32) == NAN_BOX_UPPER
}

/// Whether the pattern has a nonzero exponent and is not a NaN.
pub fn is_double_precision(value: u64) -> (r: bool)
    ensures
        r == double_like(value),
{
    let exp = (value >> 52) & 0x7FF;
    let significand = value & 0x000F_FFFF_FFFF_FFFFu64;
    exp != 0 && (exp != 0x7FF || significand == 0)
}

/// Classifies a register pattern.
pub fn validate_nan_boxing(value: u64) -> (r: NanBoxingResult)
    ensures
        r == classify(value),
{
    if is_nan_boxed(value) {
        return NanBoxingResult::Valid;
    }
    let exp = (value >> 52) & 0x7FF;
    let significand = value & 0x000F_FFFF_FFFF_FFFFu64;
    if significand == 0 {
        if exp == 0 {
            return NanBoxingResult::DoublePrecision;
        }
        if exp == 0x7FF {
            return NanBoxingResult::DoublePrecision;
        }
    }
    if exp == 0x7FF {
        if (significand & 0x8_0000_0000_0000u64) != 0 {
            return NanBoxingResult::QuietNan;
        } else {
            return NanBoxingResult::SignalingNan;
        }
    }
    if is_double_precision(value) {
        return NanBoxingResult::DoublePrecision;
    }
    NanBoxingResult::Invalid
}

/// The NaN-boxed canonical single-precision NaN.
pub fn canonical_nan_f32() -> (r: u64)
    ensures
        r == NAN_BOXED_CANONICAL_NAN,
{
    NAN_BOXED_CANONICAL_NAN
}

/// The canonical double-precision NaN.
pub fn canonical_nan_f64() -> (r: u64)
    ensures
        r == CANONICAL_NAN_F64,
{
    CANONICAL_NAN_F64
}

/// The canonical NaN of the given precision.
pub open spec fn canonical_nan(is_double: bool) -> u64 {
    if is_double {
        CANONICAL_NAN_F64
    } else {
        NAN_BOXED_CANONICAL_NAN
    }
}

/// The NaN an operation on `rs1` and `rs2` produces.
pub open spec fn effective_nan_spec(rs1: u64, rs2: u64, is_double: bool) -> u64 {
    let c1 = classify(rs1);
    let c2 = classify(rs2);
    if c1 == NanBoxingResult::SignalingNan || c2 == NanBoxingResult::SignalingNan {
        canonical_nan(is_double)
    } else if c1 == NanBoxingResult::QuietNan && boxed(rs1) {
        rs1
    } else if c2 == NanBoxingResult::QuietNan && boxed(rs2) {
        rs2
    } else {
        canonical_nan(is_double)
    }
}

/// Picks the NaN an operation produces: a signaling operand gives the
/// canonical NaN of the precision; otherwise a boxed quiet NaN operand
/// propagates; otherwise the canonical NaN.
pub fn effective_nan(rs1: u64, rs2: u64, is_double: bool) -> (r: u64)
    ensures
        r == effective_nan_spec(rs1, rs2, is_double),
{
    let rs1_nan = validate_nan_boxing(rs1);
    let rs2_nan = validate_nan_boxing(rs2);
    if rs1_nan == NanBoxingResult::SignalingNan || rs2_nan == NanBoxingResult::SignalingNan {
        return if is_double {
            canonical_nan_f64()
        } else {
            canonical_nan_f32()
        };
    }
    if rs1_nan == NanBoxingResult::QuietNan && is_nan_boxed(rs1) {
        return rs1;
    }
    if rs2_nan == NanBoxingResult::QuietNan && is_nan_boxed(rs2) {
        return rs2;
    }
    if is_double {
        canonical_nan_f64()
    } else {
        canonical_nan_f32()
    }
}

/// Whether the pattern is neither a double-like value nor NaN-boxed.
pub fn is_invalid_boxed_value(value: u64) -> (r: bool)
    ensures
        r == (!double_like(value) && !boxed(value)),
{
    if is_double_precision(value) {
        return false;
    }
    !is_nan_boxed(value)
}

/// The default NaN of the given precision.
pub fn default_nan(is_double: bool) -> (r: u64)
    ensures
        r == canonical_nan(is_double),
{
    if is_double {
        canonical_nan_f64()
    } else {
        canonical_nan_f32()
    }
}

/// What a classification is called in `format_nan_boxed`.
pub open spec fn classification_text(c: NanBoxingResult) -> Seq<char> {
    match c {
        NanBoxingResult::Valid => " (valid NaN-boxed f32)"@,
        NanBoxingResult::DoublePrecision => " (double precision)"@,
        NanBoxingResult::Invalid => " (INVALID - not NaN-boxed!)"@,
        NanBoxingResult::QuietNan => " (quiet NaN)"@,
        NanBoxingResult::SignalingNan => " (signaling NaN)"@,
    }
}

/// `0x`, the sixteen hexadecimal digits of `value`, and its classification.
pub fn format_nan_boxed(value: u64) -> (r: String)
    ensures
        r@ == "0x"@ + hex_prefix(value, 16) + classification_text(classify(value)),
{
    let digits = hex16(value);
    let text = join_text("0x", digits.as_str());
    let suffix = match validate_nan_boxing(value) {
        NanBoxingResult::Valid => " (valid NaN-boxed f32)",
        NanBoxingResult::DoublePrecision => " (double precision)",
        NanBoxingResult::Invalid => " (INVALID - not NaN-boxed!)",
        NanBoxingResult::QuietNan => " (quiet NaN)",
        NanBoxingResult::SignalingNan => " (signaling NaN)",
    };
    join_text(text.as_str(), suffix)
}

} // verus!
