//! Command-line helpers: reading an address argument, and the report of a
//! finished run.
use vstd::prelude::*;
use crate::executor::ExecutionResult;
use crate::text::{dec_digits, dec_min, hex16, hex_prefix, join_text};

verus! {

/// Why a string is not an unsigned integer.
#[derive(Debug, Clone, Copy, PartialEq, Eq, Structural)]
pub enum IntTextError {
    /// The string (after any sign) is empty.
    Empty,
    /// A character is not a digit of the radix.
    InvalidDigit,
    /// The value does not fit in 64 bits.
    PosOverflow,
}

/// How the error reads.
pub open spec fn int_text_error_text(e: IntTextError) -> Seq<char> {
    match e {
        IntTextError::Empty => "cannot parse integer from empty string"@,
        IntTextError::InvalidDigit => "invalid digit found in string"@,
        IntTextError::PosOverflow => "number too large to fit in target type"@,
    }
}

/// The value of `c` as a digit of `radix` (10 or 16; letters in either case).
pub open spec fn digit_value(c: char, radix: u64) -> Option<u64> {
    if '0' <= c && c <= '9' {
        Some((c as u64 - '0' as u64) as u64)
    } else if radix == 16 && 'a' <= c && c <= 'f' {
        Some((c as u64 - 'a' as u64 + 10) as u64)
    } else if radix == 16 && 'A' <= c && c <= 'F' {
        Some((c as u64 - 'A' as u64 + 10) as u64)
    } else {
        None
    }
}

/// The value of the first `n` digits of `ds`, read left to right: the first
/// character that is not a digit, or the first digit that takes the value
/// past 64 bits, is the error.
pub open spec fn digits_value(ds: Seq<char>, radix: u64, n: nat) -> Result<u64, IntTextError>
    decreases n,
{
    if n == 0 {
        Ok(0)
    } else {
        match digits_value(ds, radix, (n - 1) as nat) {
            Err(e) => Err(e),
            Ok(v) => match digit_value(ds[n - 1], radix) {
                None => Err(IntTextError::InvalidDigit),
                Some(x) => if v * radix + x > u64::MAX {
                    Err(IntTextError::PosOverflow)
                } else {
                    Ok((v * radix + x) as u64)
                },
            },
        }
    }
}

/// An unsigned integer in `radix`: an optional leading `+`, then digits.
pub open spec fn unsigned_value(s: Seq<char>, radix: u64) -> Result<u64, IntTextError> {
    if s.len() == 0 {
        Err(IntTextError::Empty)
    } else if (s[0] == '+' || s[0] == '-') && s.len() == 1 {
        Err(IntTextError::InvalidDigit)
    } else {
        let ds = if s[0] == '+' {
            s.drop_first()
        } else {
            s
        };
        digits_value(ds, radix, ds.len())
    }
}

/// Whether `s` starts with `0x` or `0X`.
pub open spec fn has_hex_prefix(s: Seq<char>) -> bool {
    s.len() >= 2 && s[0] == '0' && (s[1] == 'x' || s[1] == 'X')
}

/// What an address argument reads as: hexadecimal after `0x`/`0X`, else
/// decimal; an error names the form and why.
pub open spec fn addr_value(s: Seq<char>) -> Result<u64, Seq<char>> {
    if has_hex_prefix(s) {
        match unsigned_value(s.skip(2), 16) {
            Ok(v) => Ok(v),
            Err(e) => Err("Invalid hexadecimal address: "@ + int_text_error_text(e)),
        }
    } else {
        match unsigned_value(s, 10) {
            Ok(v) => Ok(v),
            Err(e) => Err("Invalid decimal address: "@ + int_text_error_text(e)),
        }
    }
}

fn digit_of(c: char, radix: u64) -> (r: Option<u64>)
    ensures
        r == digit_value(c, radix),
{
    if '0' <= c && c <= '9' {
        Some((c as u64) - ('0' as u64))
    } else if radix == 16 && 'a' <= c && c <= 'f' {
        Some((c as u64) - ('a' as u64) + 10)
    } else if radix == 16 && 'A' <= c && c <= 'F' {
        Some((c as u64) - ('A' as u64) + 10)
    } else {
        None
    }
}

fn parse_unsigned(cs: &Vec<char>, start: usize, radix: u64) -> (r: Result<u64, IntTextError>)
    requires
        start <= cs@.len(),
        radix == 10 || radix == 16,
    ensures
        r == unsigned_value(cs@.skip(start as int), radix),
{
    let ghost s = cs@.skip(start as int);
    let n = cs.len();
    if start == n {
        return Err(IntTextError::Empty);
    }
    let first = cs[start];
    if (first == '+' || first == '-') && n - start == 1 {
        return Err(IntTextError::InvalidDigit);
    }
    let from = if first == '+' {
        start + 1
    } else {
        start
    };
    let ghost ds = cs@.skip(from as int);
    assert(ds =~= if s[0] == '+' {
        s.drop_first()
    } else {
        s
    });
    let mut value: u64 = 0;
    let mut i = from;
    while i < n
        invariant
            from <= i <= n,
            n == cs@.len(),
            ds == cs@.skip(from as int),
            ds.len() == n - from,
            s == cs@.skip(start as int),
            unsigned_value(s, radix) == digits_value(ds, radix, ds.len()),
            radix == 10 || radix == 16,
            digits_value(ds, radix, (i - from) as nat) == Ok::<u64, IntTextError>(value),
        decreases n - i,
    {
        let ghost k = (i - from) as nat;
        assert(ds[k as int] == cs@[i as int]);
        let x = match digit_of(cs[i], radix) {
            Some(x) => x,
            None => {
                assert(digits_value(ds, radix, k + 1) == Err::<u64, IntTextError>(
                    IntTextError::InvalidDigit,
                ));
                proof { lemma_digits_error_sticks(ds, radix, (k + 1) as nat, ds.len()); }
                return Err(IntTextError::InvalidDigit);
            },
        };
        let lim = (u64::MAX - x) / radix;
        if value > lim {
            assert(value * radix + x > u64::MAX) by (nonlinear_arith)
                requires
                    value > lim,
                    lim as int == (u64::MAX as int - x as int) / (radix as int),
                    radix > 0,
                    x <= u64::MAX,
            ;
            assert(digits_value(ds, radix, k + 1) == Err::<u64, IntTextError>(
                IntTextError::PosOverflow,
            ));
            proof { lemma_digits_error_sticks(ds, radix, (k + 1) as nat, ds.len()); }
            return Err(IntTextError::PosOverflow);
        }
        assert(value * radix + x <= u64::MAX) by (nonlinear_arith)
            requires
                value <= lim,
                lim as int == (u64::MAX as int - x as int) / (radix as int),
                radix > 0,
                x <= u64::MAX,
        ;
        value = value * radix + x;
        i = i + 1;
    }
    Ok(value)
}

/// Once a prefix of the digits fails, every longer prefix fails the same way.
proof fn lemma_digits_error_sticks(ds: Seq<char>, radix: u64, n: nat, m: nat)
    requires
        n <= m,
        digits_value(ds, radix, n) is Err,
    ensures
        digits_value(ds, radix, m) == digits_value(ds, radix, n),
    decreases m - n,
{
    if n < m {
        lemma_digits_error_sticks(ds, radix, n, (m - 1) as nat);
    }
}

/// Reads an address argument: hexadecimal after `0x` or `0X`, otherwise
/// decimal; a leading `+` is accepted.
pub fn parse_addr(s: &str) -> (r: Result<u64, String>)
    ensures
        match addr_value(s@) {
            Ok(v) => r == Ok::<u64, String>(v),
            Err(t) => r matches Err(m) && m@ == t,
        },
{
    let mut cs: Vec<char> = Vec::new();
    for c in it: s.chars()
        invariant
            cs@ == it.seq().take(it.index() as int),
    {
        cs.push(c);
    }
    assert(cs@ =~= s@);
    if cs.len() >= 2 && cs[0] == '0' && (cs[1] == 'x' || cs[1] == 'X') {
        match parse_unsigned(&cs, 2, 16) {
            Ok(v) => Ok(v),
            Err(e) => Err(join_text("Invalid hexadecimal address: ", int_text_error_str(e))),
        }
    } else {
        assert(cs@.skip(0) =~= cs@);
        match parse_unsigned(&cs, 0, 10) {
            Ok(v) => Ok(v),
            Err(e) => Err(join_text("Invalid decimal address: ", int_text_error_str(e))),
        }
    }
}

fn int_text_error_str(e: IntTextError) -> (r: &'static str)
    ensures
        r@ == int_text_error_text(e),
{
    match e {
        IntTextError::Empty => "cannot parse integer from empty string",
        IntTextError::InvalidDigit => "invalid digit found in string",
        IntTextError::PosOverflow => "number too large to fit in target type",
    }
}

/// The status line of a finished run: a timeout, a zero exit code, or
/// anything else.
pub open spec fn status_text(res: ExecutionResult) -> Seq<char> {
    if res.timed_out {
        "Status:     TIMEOUT\n"@
    } else if res.exit_code == 0 {
        "Status:     SUCCESS\n"@
    } else {
        "Status:     FAILED\n"@
    }
}

/// The report of a finished run: a blank line, a banner, the exit code,
/// the cycle count, the final pc (sixteen hexadecimal digits), the status,
/// the error if there is one, the signature address and length if there is
/// one, and a closing rule.
pub open spec fn report_text(res: ExecutionResult) -> Seq<char> {
    "\n========== Execution Result ==========\n"@ + "Exit Code:  "@ + dec_digits(
        res.exit_code as u64,
    ) + "\n"@ + "Cycles:     "@ + dec_digits(res.cycles) + "\n"@ + "Final PC:   0x"@ + hex_prefix(
        res.final_pc,
        16,
    ) + "\n"@ + status_text(res) + match res.error {
        Some(e) => "Error:      "@ + e@ + "\n"@,
        None => Seq::empty(),
    } + match res.signature_addr {
        Some(a) => "Signature:  0x"@ + hex_prefix(a, 16) + " ("@ + dec_digits(
            match res.signature_data {
                Some(d) => d@.len() as u64,
                None => 0,
            },
        ) + " bytes)\n"@,
        None => Seq::empty(),
    } + "=====================================\n"@
}

/// Appends `b` to `a`.
fn append(a: String, b: &str) -> (r: String)
    ensures
        r@ == a@ + b@,
{
    join_text(a.as_str(), b)
}

/// The report of a finished run, as `report_text` describes it.
pub fn result_report(res: &ExecutionResult) -> (r: String)
    ensures
        r@ == report_text(*res),
{
    proof {
        reveal_strlit("");
    }
    let mut t = join_text("\n========== Execution Result ==========\n", "Exit Code:  ");
    let code = dec_min(res.exit_code as u64);
    t = append(t, code.as_str());
    t = append(t, "\n");
    t = append(t, "Cycles:     ");
    let cycles = dec_min(res.cycles);
    t = append(t, cycles.as_str());
    t = append(t, "\n");
    t = append(t, "Final PC:   0x");
    let pc = hex16(res.final_pc);
    t = append(t, pc.as_str());
    t = append(t, "\n");
    let status = if res.timed_out {
        "Status:     TIMEOUT\n"
    } else if res.exit_code == 0 {
        "Status:     SUCCESS\n"
    } else {
        "Status:     FAILED\n"
    };
    t = append(t, status);
    let ghost before_error = t@;
    match &res.error {
        Some(e) => {
            t = append(t, "Error:      ");
            t = append(t, e.as_str());
            t = append(t, "\n");
        },
        None => {
            assert(t@ =~= before_error + Seq::<char>::empty());
        },
    }
    let ghost before_sig = t@;
    match res.signature_addr {
        Some(a) => {
            let len: u64 = match &res.signature_data {
                Some(d) => d.len() as u64,
                None => 0,
            };
            t = append(t, "Signature:  0x");
            let ah = hex16(a);
            t = append(t, ah.as_str());
            t = append(t, " (");
            let lt = dec_min(len);
            t = append(t, lt.as_str());
            t = append(t, " bytes)\n");
        },
        None => {
            assert(t@ =~= before_sig + Seq::<char>::empty());
        },
    }
    t = append(t, "=====================================\n");
    assert(t@ =~= report_text(*res));
    t
}

} // verus!
