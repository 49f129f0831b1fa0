//! Building text: joining strings, and the hexadecimal and decimal forms
//! of integers.
use vstd::prelude::*;

verus! {

/// The two string slices one after the other.
pub(crate) fn join_text(a: &str, b: &str) -> (r: String)
    ensures
        r@ == a@ + b@,
{
    let mut text = String::from_str(a);
    text.append(b);
    text
}

/// One lowercase hexadecimal digit.
pub open spec fn hex_digit_text(d: u64) -> Seq<char> {
    if d == 0 {
        "0"@
    } else if d == 1 {
        "1"@
    } else if d == 2 {
        "2"@
    } else if d == 3 {
        "3"@
    } else if d == 4 {
        "4"@
    } else if d == 5 {
        "5"@
    } else if d == 6 {
        "6"@
    } else if d == 7 {
        "7"@
    } else if d == 8 {
        "8"@
    } else if d == 9 {
        "9"@
    } else if d == 10 {
        "a"@
    } else if d == 11 {
        "b"@
    } else if d == 12 {
        "c"@
    } else if d == 13 {
        "d"@
    } else if d == 14 {
        "e"@
    } else {
        "f"@
    }
}

/// The first `n` of the sixteen hexadecimal digits of `v`, most
/// significant first.
pub open spec fn hex_prefix(v: u64, n: nat) -> Seq<char>
    decreases n,
{
    if n == 0 {
        Seq::empty()
    } else {
        hex_prefix(v, (n - 1) as nat) + hex_digit_text((v >> ((4 * (16 - n)) as u64)) & 0xF)
    }
}

/// One lowercase hexadecimal digit.
pub(crate) fn hex_digit_str(d: u64) -> (r: &'static str)
    ensures
        r@ == hex_digit_text(d),
{
    if d == 0 {
        "0"
    } else if d == 1 {
        "1"
    } else if d == 2 {
        "2"
    } else if d == 3 {
        "3"
    } else if d == 4 {
        "4"
    } else if d == 5 {
        "5"
    } else if d == 6 {
        "6"
    } else if d == 7 {
        "7"
    } else if d == 8 {
        "8"
    } else if d == 9 {
        "9"
    } else if d == 10 {
        "a"
    } else if d == 11 {
        "b"
    } else if d == 12 {
        "c"
    } else if d == 13 {
        "d"
    } else if d == 14 {
        "e"
    } else {
        "f"
    }
}

/// The sixteen hexadecimal digits of `v` (zero-padded, lowercase).
pub fn hex16(v: u64) -> (r: String)
    ensures
        r@ == hex_prefix(v, 16),
{
    let mut text = join_text("", "");
    proof {
        reveal_strlit("");
        assert(text@ =~= hex_prefix(v, 0));
    }
    let mut n: u64 = 0;
    while n < 16
        invariant
            n <= 16,
            text@ == hex_prefix(v, n as nat),
        decreases 16 - n,
    {
        let d = (v >> (4 * (15 - n))) & 0xF;
        text = join_text(text.as_str(), hex_digit_str(d));
        proof {
            assert((4 * (15 - n)) as u64 == (4 * (16 - (n + 1))) as u64);
            assert(text@ =~= hex_prefix(v, (n + 1) as nat));
        }
        n = n + 1;
    }
    text
}

/// The hexadecimal digits of `v` without leading zeros ("0" for zero).
pub open spec fn hex_digits(v: u64) -> Seq<char>
    decreases v,
{
    if v < 16 {
        hex_digit_text(v)
    } else {
        hex_digits(v / 16) + hex_digit_text(v % 16)
    }
}

/// The hexadecimal digits of `v` without leading zeros.
pub fn hex_min(v: u64) -> (r: String)
    ensures
        r@ == hex_digits(v),
    decreases v,
{
    if v < 16 {
        let r = join_text(hex_digit_str(v), "");
        proof {
            reveal_strlit("");
            assert(r@ =~= hex_digits(v));
        }
        r
    } else {
        let hi = hex_min(v / 16);
        join_text(hi.as_str(), hex_digit_str(v % 16))
    }
}

/// The decimal digits of `v` without leading zeros ("0" for zero).
pub open spec fn dec_digits(v: u64) -> Seq<char>
    decreases v,
{
    if v < 10 {
        hex_digit_text(v)
    } else {
        dec_digits(v / 10) + hex_digit_text(v % 10)
    }
}

/// The decimal digits of `v` without leading zeros.
pub fn dec_min(v: u64) -> (r: String)
    ensures
        r@ == dec_digits(v),
    decreases v,
{
    if v < 10 {
        let r = join_text(hex_digit_str(v), "");
        proof {
            reveal_strlit("");
            assert(r@ =~= dec_digits(v));
        }
        r
    } else {
        let hi = dec_min(v / 10);
        join_text(hi.as_str(), hex_digit_str(v % 10))
    }
}

} // verus!
