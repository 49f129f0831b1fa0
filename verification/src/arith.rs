//! Two's-complement helpers shared by the instruction semantics.
//!
//! Registers hold raw 64-bit patterns.  The spec functions here give those
//! patterns their signed reading and describe the sign extensions used by
//! the RISC-V immediate encodings, so contracts can speak of them directly.
use vstd::prelude::*;
use vstd::arithmetic::div_mod::{
    lemma_div_is_ordered_by_denominator, lemma_fundamental_div_mod, lemma_fundamental_div_mod_converse,
    lemma_mod_pos_bound,
};
use vstd::arithmetic::mul::lemma_mul_is_commutative;
use vstd::arithmetic::power2::{lemma_pow2_pos, pow2};
use vstd::bits::{lemma_u32_shr_is_div, lemma_u64_shr_is_div};

verus! {

/// The signed (two's-complement) reading of a 64-bit register pattern.
pub open spec fn signed64(x: u64) -> int {
    if x < 0x8000_0000_0000_0000 {
        x as int
    } else {
        x as int - 0x1_0000_0000_0000_0000
    }
}

/// The signed reading of a 32-bit pattern.
pub open spec fn signed32(x: u32) -> int {
    if x < 0x8000_0000 {
        x as int
    } else {
        x as int - 0x1_0000_0000
    }
}

/// Sign-extends a 32-bit pattern to 64 bits.
pub open spec fn sext32(v: u32) -> u64 {
    if v < 0x8000_0000 {
        v as u64
    } else {
        (v as u64 + 0xFFFF_FFFF_0000_0000u64) as u64
    }
}

/// Sign-extends a 16-bit pattern to 64 bits.
pub open spec fn sext16(v: u16) -> u64 {
    if v < 0x8000 {
        v as u64
    } else {
        (v as u64 + 0xFFFF_FFFF_FFFF_0000u64) as u64
    }
}

/// Sign-extends an 8-bit pattern to 64 bits.
pub open spec fn sext8(v: u8) -> u64 {
    if v < 0x80 {
        v as u64
    } else {
        (v as u64 + 0xFFFF_FFFF_FFFF_FF00u64) as u64
    }
}

/// The sign-extended 12-bit immediate of an I/S-type encoding.
pub open spec fn sext12(imm: u32) -> u64 {
    let m = (imm % 0x1000) as u64;
    if m < 0x800 { m } else { (m + 0xFFFF_FFFF_FFFF_F000u64) as u64 }
}

/// The sign-extended 13-bit branch offset of a B-type encoding.
pub open spec fn sext13(imm: u32) -> u64 {
    let m = (imm % 0x2000) as u64;
    if m < 0x1000 { m } else { (m + 0xFFFF_FFFF_FFFF_E000u64) as u64 }
}

/// The sign-extended 21-bit jump offset of a J-type encoding.
pub open spec fn sext21(imm: u32) -> u64 {
    let m = (imm % 0x20_0000) as u64;
    if m < 0x10_0000 { m } else { (m + 0xFFFF_FFFF_FFE0_0000u64) as u64 }
}

/// The sign-extended 6-bit immediate of the compressed encodings.
pub open spec fn sext6(imm: u32) -> u64 {
    let m = (imm % 0x40) as u64;
    if m < 0x20 { m } else { (m + 0xFFFF_FFFF_FFFF_FFC0u64) as u64 }
}

/// Arithmetic right shift of a 64-bit pattern (the shift amount is below 64).
pub open spec fn sra64(x: u64, s: u64) -> u64 {
    if x < 0x8000_0000_0000_0000 {
        x >> s
    } else {
        !((!x) >> s)
    }
}

/// Arithmetic right shift of a 32-bit pattern (the shift amount is below 32).
pub open spec fn sra32(x: u32, s: u32) -> u32 {
    if x < 0x8000_0000 {
        x >> s
    } else {
        !((!x) >> s)
    }
}

/// Masking the low bits of an immediate is taking it modulo a power of two.
/// Sign extension keeps both the low bits and the two's-complement value:
/// the 64-bit extension of an N-bit field (N = 6, 8, 12, 13, 16, 21, 32)
/// agrees with the field in its low N bits, and read as a signed 64-bit
/// number it is the field read as a signed N-bit number.
pub proof fn lemma_sign_extensions(v32: u32, v16: u16, v8: u8, imm: u32)
    ensures
        sext32(v32) as int % 0x1_0000_0000 == v32 as int,
        signed64(sext32(v32)) == v32 as int - if v32 >= 0x8000_0000 {
            0x1_0000_0000int
        } else {
            0int
        },
        sext16(v16) as int % 0x1_0000 == v16 as int,
        signed64(sext16(v16)) == v16 as int - if v16 >= 0x8000 {
            0x1_0000int
        } else {
            0int
        },
        sext8(v8) as int % 0x100 == v8 as int,
        signed64(sext8(v8)) == v8 as int - if v8 >= 0x80 {
            0x100int
        } else {
            0int
        },
        sext6(imm) as int % 0x40 == imm as int % 0x40,
        signed64(sext6(imm)) == imm as int % 0x40 - if imm % 0x40 >= 0x20 {
            0x40int
        } else {
            0int
        },
        sext12(imm) as int % 0x1000 == imm as int % 0x1000,
        signed64(sext12(imm)) == imm as int % 0x1000 - if imm % 0x1000 >= 0x800 {
            0x1000int
        } else {
            0int
        },
        sext13(imm) as int % 0x2000 == imm as int % 0x2000,
        signed64(sext13(imm)) == imm as int % 0x2000 - if imm % 0x2000 >= 0x1000 {
            0x2000int
        } else {
            0int
        },
        sext21(imm) as int % 0x20_0000 == imm as int % 0x20_0000,
        signed64(sext21(imm)) == imm as int % 0x20_0000 - if imm % 0x20_0000 >= 0x10_0000 {
            0x20_0000int
        } else {
            0int
        },
{
}

pub(crate) proof fn lemma_word_bits(x: u64, y: u32, z: u64, i: u64)
    by (bit_vector)
    ensures
        !x == 0xFFFF_FFFF_FFFF_FFFFu64 - x,
        !y == 0xFFFF_FFFFu32 - y,
        x & 0x3F < 64,
        y & 0x1F < 32,
        y & 0x3F < 64,
        x & !1u64 == x - x % 2,
        i < 64 ==> (((x & z) >> i) & 1 == 1) == ((x >> i) & 1 == 1 && (z >> i) & 1 == 1),
        i < 64 ==> (((x | z) >> i) & 1 == 1) == ((x >> i) & 1 == 1 || (z >> i) & 1 == 1),
        i < 64 ==> (((x ^ z) >> i) & 1 == 1) == (((x >> i) & 1 == 1) != ((z >> i) & 1
            == 1)),
        i < 64 ==> (((x & !z) >> i) & 1 == 1) == ((x >> i) & 1 == 1 && (z >> i) & 1 != 1),
        i < 32 ==> (((((x as u32) & (z as u32)) as u64) >> i) & 1 == 1) == ((x >> i) & 1 == 1 && (z
            >> i) & 1 == 1),
        i < 32 ==> (((((x as u32) | (z as u32)) as u64) >> i) & 1 == 1) == ((x >> i) & 1 == 1 || (z
            >> i) & 1 == 1),
        i < 32 ==> (((((x as u32) ^ (z as u32)) as u64) >> i) & 1 == 1) == (((x >> i) & 1 == 1) != ((z
            >> i) & 1 == 1)),
        32 <= i < 64 ==> (((((x as u32) & (z as u32)) as u64) >> i) & 1 == 0) && (((((x as u32) | (
        z as u32)) as u64) >> i) & 1 == 0) && (((((x as u32) ^ (z as u32)) as u64) >> i) & 1 == 0),
{
}

/// A negative value `-1 - n` divided by a positive `d`, rounding down, is
/// `-1 - n / d`.
proof fn lemma_div_of_negative(n: int, d: int)
    requires
        n >= 0,
        d > 0,
    ensures
        (-1 - n) / d == -1 - n / d,
{
    let q = n / d;
    let r = n % d;
    lemma_mod_pos_bound(n, d);
    assert(n == q * d + r) by {
        lemma_fundamental_div_mod(n, d);
        lemma_mul_is_commutative(d, q);
    }
    assert(-1 - n == (-1 - q) * d + (d - 1 - r)) by (nonlinear_arith)
        requires
            n == q * d + r,
    ;
    lemma_fundamental_div_mod_converse(-1 - n, d, -1 - q, d - 1 - r);
}

/// Arithmetic right shift by `s` divides the signed value by 2^s, rounding
/// toward negative infinity, on 64-bit and on 32-bit patterns; a logical
/// right shift divides the unsigned value the same way.
pub proof fn lemma_shift_right_divides(x: u64, s: u64, y: u32, t: u32)
    requires
        s < 64,
        t < 32,
    ensures
        signed64(sra64(x, s)) == signed64(x) / pow2(s as nat) as int,
        signed32(sra32(y, t)) == signed32(y) / pow2(t as nat) as int,
        (x >> s) as int == x as int / pow2(s as nat) as int,
        (y >> t) as int == y as int / pow2(t as nat) as int,
{
    lemma_pow2_pos(s as nat);
    lemma_pow2_pos(t as nat);
    lemma_u64_shr_is_div(x, s);
    lemma_u32_shr_is_div(y, t);
    let d = pow2(s as nat) as int;
    let e = pow2(t as nat) as int;
    if x >= 0x8000_0000_0000_0000 {
        let n = !x;
        lemma_word_bits(x, 0, 0, 0);
        lemma_u64_shr_is_div(n, s);
        let q = n >> s;
        assert(q as int == n as int / d);
        assert(q as int <= n as int) by {
            lemma_div_is_ordered_by_denominator(n as int, 1, d);
        }
        lemma_word_bits(q, 0, 0, 0);
        lemma_div_of_negative(n as int, d);
    }
    if y >= 0x8000_0000 {
        let n = !y;
        lemma_word_bits(0, y, 0, 0);
        lemma_u32_shr_is_div(n, t);
        let q = n >> t;
        assert(q as int == n as int / e);
        assert(q as int <= n as int) by {
            lemma_div_is_ordered_by_denominator(n as int, 1, e);
        }
        lemma_word_bits(0, q, 0, 0);
        lemma_div_of_negative(n as int, e);
    }
}

proof fn lemma_low_bits(imm: u32)
    by (bit_vector)
    ensures
        (imm & 0xFFF) == imm % 4096,
        (imm & 0x1FFF) == imm % 8192,
        (imm & 0x1F_FFFF) == imm % 0x20_0000,
        (imm & 0x3F) == imm % 64,
{
}

/// Sign-extends the low 12 bits of an immediate.
pub fn sign_extend_12(imm: u32) -> (r: u64)
    ensures
        r == sext12(imm),
{
    proof {
        lemma_low_bits(imm);
    }
    let v = (imm & 0xFFF) as u64;
    if v < 0x800 {
        v
    } else {
        v + 0xFFFF_FFFF_FFFF_F000
    }
}

/// Sign-extends the low 13 bits of an immediate.
pub fn sign_extend_13(imm: u32) -> (r: u64)
    ensures
        r == sext13(imm),
{
    proof {
        lemma_low_bits(imm);
    }
    let v = (imm & 0x1FFF) as u64;
    if v < 0x1000 {
        v
    } else {
        v + 0xFFFF_FFFF_FFFF_E000
    }
}

/// Sign-extends the low 21 bits of an immediate.
pub fn sign_extend_21(imm: u32) -> (r: u64)
    ensures
        r == sext21(imm),
{
    proof {
        lemma_low_bits(imm);
    }
    let v = (imm & 0x1F_FFFF) as u64;
    if v < 0x10_0000 {
        v
    } else {
        v + 0xFFFF_FFFF_FFE0_0000
    }
}

/// Sign-extends the low 6 bits of an immediate.
pub fn sign_extend_6(imm: u32) -> (r: u64)
    ensures
        r == sext6(imm),
{
    proof {
        lemma_low_bits(imm);
    }
    let v = (imm & 0x3F) as u64;
    if v < 0x20 {
        v
    } else {
        v + 0xFFFF_FFFF_FFFF_FFC0
    }
}

/// Sign-extends a 32-bit pattern to 64 bits.
pub fn sign_extend_32(v: u32) -> (r: u64)
    ensures
        r == sext32(v),
{
    if v < 0x8000_0000 {
        v as u64
    } else {
        v as u64 + 0xFFFF_FFFF_0000_0000
    }
}

/// Signed less-than on two 64-bit register patterns.
pub fn lt_signed(a: u64, b: u64) -> (r: bool)
    ensures
        r == (signed64(a) < signed64(b)),
{
    let na = a >= 0x8000_0000_0000_0000;
    let nb = b >= 0x8000_0000_0000_0000;
    if na != nb {
        na
    } else {
        a < b
    }
}

/// Signed less-than on two 32-bit patterns.
pub fn lt_signed32(a: u32, b: u32) -> (r: bool)
    ensures
        r == (signed32(a) < signed32(b)),
{
    let na = a >= 0x8000_0000;
    let nb = b >= 0x8000_0000;
    if na != nb {
        na
    } else {
        a < b
    }
}

/// Arithmetic right shift of a 64-bit pattern.
pub fn shift_right_arith(x: u64, s: u64) -> (r: u64)
    requires
        s < 64,
    ensures
        r == sra64(x, s),
{
    if x < 0x8000_0000_0000_0000 {
        x >> s
    } else {
        !((!x) >> s)
    }
}

/// Arithmetic right shift of a 32-bit pattern.
pub fn shift_right_arith32(x: u32, s: u32) -> (r: u32)
    requires
        s < 32,
    ensures
        r == sra32(x, s),
{
    if x < 0x8000_0000 {
        x >> s
    } else {
        !((!x) >> s)
    }
}

} // verus!
