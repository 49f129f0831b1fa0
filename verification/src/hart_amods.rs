//! The arithmetic of the atomic memory operations.
//!
//! Every AMO read-modify-write computes its new value here, once, for both
//! widths: word operations compute on the low 32 bits of each operand and
//! produce a zero-extended 32-bit result; doubleword operations use the
//! full 64 bits.  Byte slices are in memory order (little-endian).
use vstd::prelude::*;
use crate::arith::{lemma_word_bits, lt_signed, lt_signed32, signed32, signed64};
use crate::memory::{
    byte_of, lemma_le32_store, lemma_le64_store, lemma_narrow_bytes, le32, le64, store_le,
};
use crate::physical::{AmoTransform, AmoWidth, amo_width_bytes};

verus! {

/// The nine AMO read-modify-write operations.
#[derive(Debug, Clone, Copy, PartialEq, Eq, Structural)]
pub enum AmoOperation {
    /// The operand replaces the old value.
    Swap,
    /// Wrapping addition.
    Add,
    /// Bitwise exclusive or.
    BitXor,
    /// Bitwise and.
    BitAnd,
    /// Bitwise or.
    BitOr,
    /// Signed minimum.
    Min,
    /// Unsigned minimum.
    Minu,
    /// Signed maximum.
    Max,
    /// Unsigned maximum.
    Maxu,
}

/// The mnemonic of an operation.
pub open spec fn amo_mnemonic(op: AmoOperation) -> Seq<char> {
    match op {
        AmoOperation::Swap => "amoswap"@,
        AmoOperation::Add => "amoadd"@,
        AmoOperation::BitXor => "amoxor"@,
        AmoOperation::BitAnd => "amoand"@,
        AmoOperation::BitOr => "amoor"@,
        AmoOperation::Min => "amomin"@,
        AmoOperation::Minu => "amominu"@,
        AmoOperation::Max => "amomax"@,
        AmoOperation::Maxu => "amomaxu"@,
    }
}

impl AmoOperation {
    /// The mnemonic of this operation.
    pub fn to_display_string(&self) -> (r: String)
        ensures
            r@ == amo_mnemonic(*self),
    {
        let name = match self {
            AmoOperation::Swap => "amoswap",
            AmoOperation::Add => "amoadd",
            AmoOperation::BitXor => "amoxor",
            AmoOperation::BitAnd => "amoand",
            AmoOperation::BitOr => "amoor",
            AmoOperation::Min => "amomin",
            AmoOperation::Minu => "amominu",
            AmoOperation::Max => "amomax",
            AmoOperation::Maxu => "amomaxu",
        };
        name.to_owned()
    }
}

/// A direct `apply` call with inputs of the wrong length.
#[derive(Debug, Clone, Copy, PartialEq, Eq, Structural)]
pub enum AmoArithmeticError {
    /// The old span bytes do not have the selected width.
    OldSpanLength { expected: usize, actual: usize },
    /// The operand bytes do not have the selected width.
    OperandLength { expected: usize, actual: usize },
}

/// A word operation on two 32-bit values.
pub open spec fn amo_word(op: AmoOperation, old: u32, operand: u32) -> u32 {
    match op {
        AmoOperation::Swap => operand,
        AmoOperation::Add => old.wrapping_add(operand),
        AmoOperation::BitXor => old ^ operand,
        AmoOperation::BitAnd => old & operand,
        AmoOperation::BitOr => old | operand,
        AmoOperation::Min => if signed32(old) <= signed32(operand) {
            old
        } else {
            operand
        },
        AmoOperation::Minu => if old <= operand {
            old
        } else {
            operand
        },
        AmoOperation::Max => if signed32(old) >= signed32(operand) {
            old
        } else {
            operand
        },
        AmoOperation::Maxu => if old >= operand {
            old
        } else {
            operand
        },
    }
}

/// A doubleword operation on two 64-bit values.
pub open spec fn amo_dword(op: AmoOperation, old: u64, operand: u64) -> u64 {
    match op {
        AmoOperation::Swap => operand,
        AmoOperation::Add => old.wrapping_add(operand),
        AmoOperation::BitXor => old ^ operand,
        AmoOperation::BitAnd => old & operand,
        AmoOperation::BitOr => old | operand,
        AmoOperation::Min => if signed64(old) <= signed64(operand) {
            old
        } else {
            operand
        },
        AmoOperation::Minu => if old <= operand {
            old
        } else {
            operand
        },
        AmoOperation::Max => if signed64(old) >= signed64(operand) {
            old
        } else {
            operand
        },
        AmoOperation::Maxu => if old >= operand {
            old
        } else {
            operand
        },
    }
}

/// The new span value: a word result zero-extended, or a doubleword result.
pub open spec fn amo_value(op: AmoOperation, width: AmoWidth, old: u64, operand: u64) -> u64 {
    match width {
        AmoWidth::Word => amo_word(op, old as u32, operand as u32) as u64,
        AmoWidth::Doubleword => amo_dword(op, old, operand),
    }
}

/// Computes the new span value of one operation.
pub fn compute_value(op: AmoOperation, width: AmoWidth, old: u64, operand: u64) -> (r: u64)
    ensures
        r == amo_value(op, width, old, operand),
{
    match width {
        AmoWidth::Word => {
            let o = old as u32;
            let x = operand as u32;
            let v: u32 = match op {
                AmoOperation::Swap => x,
                AmoOperation::Add => o.wrapping_add(x),
                AmoOperation::BitXor => o ^ x,
                AmoOperation::BitAnd => o & x,
                AmoOperation::BitOr => o | x,
                AmoOperation::Min => if !lt_signed32(x, o) {
                    o
                } else {
                    x
                },
                AmoOperation::Minu => if o <= x {
                    o
                } else {
                    x
                },
                AmoOperation::Max => if !lt_signed32(o, x) {
                    o
                } else {
                    x
                },
                AmoOperation::Maxu => if o >= x {
                    o
                } else {
                    x
                },
            };
            v as u64
        },
        AmoWidth::Doubleword => match op {
            AmoOperation::Swap => operand,
            AmoOperation::Add => old.wrapping_add(operand),
            AmoOperation::BitXor => old ^ operand,
            AmoOperation::BitAnd => old & operand,
            AmoOperation::BitOr => old | operand,
            AmoOperation::Min => if !lt_signed(operand, old) {
                old
            } else {
                operand
            },
            AmoOperation::Minu => if old <= operand {
                old
            } else {
                operand
            },
            AmoOperation::Max => if !lt_signed(old, operand) {
                old
            } else {
                operand
            },
            AmoOperation::Maxu => if old >= operand {
                old
            } else {
                operand
            },
        },
    }
}

/// On doublewords, AMOSWAP stores the operand, AMOADD the sum modulo 2^64,
/// and the four ordering operations store one of their two inputs: AMOMAX
/// the greater and AMOMIN the smaller in two's-complement order, AMOMAXU and
/// AMOMINU the greater and the smaller in unsigned order.  The signed and
/// unsigned maximum differ whenever the two inputs have different signs.
pub proof fn lemma_amo_dword_results(old: u64, operand: u64)
    ensures
        amo_value(AmoOperation::Swap, AmoWidth::Doubleword, old, operand) == operand,
        amo_value(AmoOperation::Add, AmoWidth::Doubleword, old, operand) as int == (old as int
            + operand as int) % 0x1_0000_0000_0000_0000,
        amo_value(AmoOperation::Max, AmoWidth::Doubleword, old, operand) == old || amo_value(
            AmoOperation::Max,
            AmoWidth::Doubleword,
            old,
            operand,
        ) == operand,
        signed64(amo_value(AmoOperation::Max, AmoWidth::Doubleword, old, operand)) >= signed64(old),
        signed64(amo_value(AmoOperation::Max, AmoWidth::Doubleword, old, operand)) >= signed64(
            operand,
        ),
        amo_value(AmoOperation::Min, AmoWidth::Doubleword, old, operand) == old || amo_value(
            AmoOperation::Min,
            AmoWidth::Doubleword,
            old,
            operand,
        ) == operand,
        signed64(amo_value(AmoOperation::Min, AmoWidth::Doubleword, old, operand)) <= signed64(old),
        signed64(amo_value(AmoOperation::Min, AmoWidth::Doubleword, old, operand)) <= signed64(
            operand,
        ),
        amo_value(AmoOperation::Maxu, AmoWidth::Doubleword, old, operand) == old || amo_value(
            AmoOperation::Maxu,
            AmoWidth::Doubleword,
            old,
            operand,
        ) == operand,
        amo_value(AmoOperation::Maxu, AmoWidth::Doubleword, old, operand) >= old,
        amo_value(AmoOperation::Maxu, AmoWidth::Doubleword, old, operand) >= operand,
        amo_value(AmoOperation::Minu, AmoWidth::Doubleword, old, operand) == old || amo_value(
            AmoOperation::Minu,
            AmoWidth::Doubleword,
            old,
            operand,
        ) == operand,
        amo_value(AmoOperation::Minu, AmoWidth::Doubleword, old, operand) <= old,
        amo_value(AmoOperation::Minu, AmoWidth::Doubleword, old, operand) <= operand,
        (old >= 0x8000_0000_0000_0000) != (operand >= 0x8000_0000_0000_0000) ==> amo_value(
            AmoOperation::Max,
            AmoWidth::Doubleword,
            old,
            operand,
        ) != amo_value(AmoOperation::Maxu, AmoWidth::Doubleword, old, operand),
{
}

/// On words, each operation reads the low 32 bits of both inputs and
/// stores a zero-extended 32-bit result: AMOSWAP the operand, AMOADD the
/// sum modulo 2^32, AMOMAX and AMOMIN the greater and the smaller input in
/// 32-bit two's-complement order, AMOMAXU and AMOMINU in unsigned order.
pub proof fn lemma_amo_word_results(old: u64, operand: u64)
    ensures
        amo_value(AmoOperation::Swap, AmoWidth::Word, old, operand) == (operand as u32) as u64,
        amo_value(AmoOperation::Add, AmoWidth::Word, old, operand) as int == ((old as u32) as int
            + (operand as u32) as int) % 0x1_0000_0000,
        amo_value(AmoOperation::Max, AmoWidth::Word, old, operand) == (old as u32) as u64
            || amo_value(AmoOperation::Max, AmoWidth::Word, old, operand) == (operand as u32) as u64,
        signed32(amo_value(AmoOperation::Max, AmoWidth::Word, old, operand) as u32) >= signed32(
            old as u32,
        ),
        signed32(amo_value(AmoOperation::Max, AmoWidth::Word, old, operand) as u32) >= signed32(
            operand as u32,
        ),
        amo_value(AmoOperation::Min, AmoWidth::Word, old, operand) == (old as u32) as u64
            || amo_value(AmoOperation::Min, AmoWidth::Word, old, operand) == (operand as u32) as u64,
        signed32(amo_value(AmoOperation::Min, AmoWidth::Word, old, operand) as u32) <= signed32(
            old as u32,
        ),
        signed32(amo_value(AmoOperation::Min, AmoWidth::Word, old, operand) as u32) <= signed32(
            operand as u32,
        ),
        amo_value(AmoOperation::Maxu, AmoWidth::Word, old, operand) == (old as u32) as u64
            || amo_value(AmoOperation::Maxu, AmoWidth::Word, old, operand) == (operand as u32) as u64,
        amo_value(AmoOperation::Maxu, AmoWidth::Word, old, operand) >= (old as u32) as u64,
        amo_value(AmoOperation::Maxu, AmoWidth::Word, old, operand) >= (operand as u32) as u64,
        amo_value(AmoOperation::Minu, AmoWidth::Word, old, operand) == (old as u32) as u64
            || amo_value(AmoOperation::Minu, AmoWidth::Word, old, operand) == (operand as u32) as u64,
        amo_value(AmoOperation::Minu, AmoWidth::Word, old, operand) <= (old as u32) as u64,
        amo_value(AmoOperation::Minu, AmoWidth::Word, old, operand) <= (operand as u32) as u64,
{
}

/// Bit `i` of a 64-bit value.
pub open spec fn bit64(x: u64, i: u64) -> bool {
    (x >> i) & 1 == 1
}

/// AMOAND, AMOOR and AMOXOR combine their inputs bit by bit: on
/// doublewords, bit `i` of the stored value is set exactly when it is set
/// in both inputs, in either, or in exactly one; on words the same holds of
/// bits 0 to 31, and bits 32 to 63 of the stored value are clear.
pub proof fn lemma_amo_bitwise_results(old: u64, operand: u64)
    ensures
        forall|i: u64|
            i < 64 ==> (bit64(amo_value(AmoOperation::BitAnd, AmoWidth::Doubleword, old, operand), i)
                == (bit64(old, i) && bit64(operand, i))) && (bit64(
                amo_value(AmoOperation::BitOr, AmoWidth::Doubleword, old, operand),
                i,
            ) == (bit64(old, i) || bit64(operand, i))) && (bit64(
                amo_value(AmoOperation::BitXor, AmoWidth::Doubleword, old, operand),
                i,
            ) == (bit64(old, i) != bit64(operand, i))),
        forall|i: u64|
            i < 32 ==> (bit64(amo_value(AmoOperation::BitAnd, AmoWidth::Word, old, operand), i) == (
            bit64(old, i) && bit64(operand, i))) && (bit64(
                amo_value(AmoOperation::BitOr, AmoWidth::Word, old, operand),
                i,
            ) == (bit64(old, i) || bit64(operand, i))) && (bit64(
                amo_value(AmoOperation::BitXor, AmoWidth::Word, old, operand),
                i,
            ) == (bit64(old, i) != bit64(operand, i))),
        forall|i: u64|
            32 <= i < 64 ==> !bit64(amo_value(AmoOperation::BitAnd, AmoWidth::Word, old, operand), i)
                && !bit64(amo_value(AmoOperation::BitOr, AmoWidth::Word, old, operand), i) && !bit64(
                amo_value(AmoOperation::BitXor, AmoWidth::Word, old, operand),
                i,
            ),
{
    assert forall|i: u64| i < 64 implies (bit64(
        amo_value(AmoOperation::BitAnd, AmoWidth::Doubleword, old, operand),
        i,
    ) == (bit64(old, i) && bit64(operand, i))) && (bit64(
        amo_value(AmoOperation::BitOr, AmoWidth::Doubleword, old, operand),
        i,
    ) == (bit64(old, i) || bit64(operand, i))) && (bit64(
        amo_value(AmoOperation::BitXor, AmoWidth::Doubleword, old, operand),
        i,
    ) == (bit64(old, i) != bit64(operand, i))) by {
        lemma_word_bits(old, 0, operand, i);
    }
    assert forall|i: u64| i < 32 implies (bit64(
        amo_value(AmoOperation::BitAnd, AmoWidth::Word, old, operand),
        i,
    ) == (bit64(old, i) && bit64(operand, i))) && (bit64(
        amo_value(AmoOperation::BitOr, AmoWidth::Word, old, operand),
        i,
    ) == (bit64(old, i) || bit64(operand, i))) && (bit64(
        amo_value(AmoOperation::BitXor, AmoWidth::Word, old, operand),
        i,
    ) == (bit64(old, i) != bit64(operand, i))) by {
        lemma_word_bits(old, 0, operand, i);
    }
    assert forall|i: u64| 32 <= i < 64 implies !bit64(
        amo_value(AmoOperation::BitAnd, AmoWidth::Word, old, operand),
        i,
    ) && !bit64(amo_value(AmoOperation::BitOr, AmoWidth::Word, old, operand), i) && !bit64(
        amo_value(AmoOperation::BitXor, AmoWidth::Word, old, operand),
        i,
    ) by {
        lemma_word_bits(old, 0, operand, i);
    }
}

/// The little-endian value of the first `n` (4 or 8) bytes of a slice.
pub open spec fn le_value(b: Seq<u8>, width: AmoWidth) -> u64 {
    match width {
        AmoWidth::Word => le32(b, 0) as u64,
        AmoWidth::Doubleword => le64(b, 0),
    }
}

/// The eight little-endian bytes of a doubleword.
pub open spec fn le_bytes(v: u64) -> Seq<u8> {
    Seq::new(8, |k: int| byte_of(v, k))
}

/// Writing a value as eight little-endian bytes and reading them back at
/// doubleword width gives the value, and at word width its low word.
pub proof fn lemma_le_bytes_round_trip(v: u64)
    ensures
        le_value(le_bytes(v), AmoWidth::Doubleword) == v,
        le_value(le_bytes(v), AmoWidth::Word) == (v as u32) as u64,
{
    let b = Seq::new(8, |k: int| 0u8);
    lemma_le64_store(b, 0, v);
    assert(store_le(b, 0, 8, v) =~= le_bytes(v));
    lemma_le32_store(b, 0, v as u32);
    lemma_narrow_bytes(v);
    assert(store_le(b, 0, 4, (v as u32) as u64).subrange(0, 4) =~= le_bytes(v).subrange(0, 4));
    assert(le32(store_le(b, 0, 4, (v as u32) as u64), 0) == le32(le_bytes(v), 0)) by {
        let s = store_le(b, 0, 4, (v as u32) as u64);
        let t = le_bytes(v);
        assert(s[0] == t[0] && s[1] == t[1] && s[2] == t[2] && s[3] == t[3]) by {
            assert(s.subrange(0, 4)[0] == t.subrange(0, 4)[0]);
            assert(s.subrange(0, 4)[1] == t.subrange(0, 4)[1]);
            assert(s.subrange(0, 4)[2] == t.subrange(0, 4)[2]);
            assert(s.subrange(0, 4)[3] == t.subrange(0, 4)[3]);
        }
    }
}

fn read_le(b: &[u8], width: AmoWidth) -> (r: u64)
    requires
        b@.len() >= amo_width_bytes(width),
    ensures
        r == le_value(b@, width),
{
    match width {
        AmoWidth::Word => ((b[0] as u32) | ((b[1] as u32) << 8) | ((b[2] as u32) << 16) | ((
        b[3] as u32) << 24)) as u64,
        AmoWidth::Doubleword => (b[0] as u64) | ((b[1] as u64) << 8) | ((b[2] as u64) << 16) | ((
        b[3] as u64) << 24) | ((b[4] as u64) << 32) | ((b[5] as u64) << 40) | ((b[6] as u64) << 48)
            | ((b[7] as u64) << 56),
    }
}

/// The eight little-endian bytes of a doubleword.
pub fn to_le_bytes(v: u64) -> (r: [u8; 8])
    ensures
        r@ == le_bytes(v),
{
    let r = [
        v as u8,
        (v >> 8) as u8,
        (v >> 16) as u8,
        (v >> 24) as u8,
        (v >> 32) as u8,
        (v >> 40) as u8,
        (v >> 48) as u8,
        (v >> 56) as u8,
    ];
    assert(r@ =~= le_bytes(v));
    r
}

/// Computes one AMO from old span bytes and operand bytes of the selected
/// width.  The first `width` bytes of the result are the new span in memory
/// order; the remaining bytes are zero.
pub fn apply(
    operation: AmoOperation,
    width: AmoWidth,
    old_bytes: &[u8],
    operand_bytes: &[u8],
) -> (r: Result<[u8; 8], AmoArithmeticError>)
    ensures
        old_bytes@.len() != amo_width_bytes(width) ==> r == Err::<[u8; 8], AmoArithmeticError>(
            AmoArithmeticError::OldSpanLength {
                expected: amo_width_bytes(width) as usize,
                actual: old_bytes@.len() as usize,
            },
        ),
        old_bytes@.len() == amo_width_bytes(width) && operand_bytes@.len() != amo_width_bytes(
            width,
        ) ==> r == Err::<[u8; 8], AmoArithmeticError>(
            AmoArithmeticError::OperandLength {
                expected: amo_width_bytes(width) as usize,
                actual: operand_bytes@.len() as usize,
            },
        ),
        old_bytes@.len() == amo_width_bytes(width) && operand_bytes@.len() == amo_width_bytes(width)
            ==> (r matches Ok(out) && out@ == le_bytes(
            amo_value(operation, width, le_value(old_bytes@, width), le_value(operand_bytes@, width)),
        )),
{
    let expected = width.bytes();
    if old_bytes.len() != expected {
        return Err(AmoArithmeticError::OldSpanLength { expected, actual: old_bytes.len() });
    }
    if operand_bytes.len() != expected {
        return Err(AmoArithmeticError::OperandLength { expected, actual: operand_bytes.len() });
    }
    let old = read_le(old_bytes, width);
    let operand = read_le(operand_bytes, width);
    Ok(to_le_bytes(compute_value(operation, width, old, operand)))
}

/// The new span bytes an AMO produces: zeros when either input is shorter
/// than the width, otherwise the little-endian result (the word result in
/// the low four bytes, zeros above).
pub open spec fn compute_spec(op: AmoOperation, width: AmoWidth, old: Seq<u8>, operand: Seq<u8>) -> Seq<
    u8,
> {
    if old.len() < amo_width_bytes(width) || operand.len() < amo_width_bytes(width) {
        Seq::new(8, |i: int| 0u8)
    } else {
        le_bytes(amo_value(op, width, le_value(old, width), le_value(operand, width)))
    }
}

/// Computes the new span bytes of one AMO; inputs shorter than the width
/// give all zeros.
pub fn compute(operation: AmoOperation, width: AmoWidth, old_bytes: &[u8], operand_bytes: &[u8]) -> (r:
    [u8; 8])
    ensures
        r@ == compute_spec(operation, width, old_bytes@, operand_bytes@),
{
    let expected = width.bytes();
    if old_bytes.len() < expected || operand_bytes.len() < expected {
        let out = [0u8; 8];
        assert(out@ =~= Seq::new(8, |i: int| 0u8));
        return out;
    }
    let old = read_le(old_bytes, width);
    let operand = read_le(operand_bytes, width);
    to_le_bytes(compute_value(operation, width, old, operand))
}

/// The transform an AMO of `operation` and `width` applies to its span.
pub fn transform(operation: AmoOperation, width: AmoWidth) -> (r: AmoTransform)
    ensures
        r.operation == operation,
        r.width == width,
{
    AmoTransform { width, operation }
}

} // verus!
