//! The floating-point control and status register.
//!
//! Layout: bits 2:0 hold the dynamic rounding mode (`frm`), bits 7:3 the
//! accrued exception flags (NV, DZ, OF, UF, NX from bit 3 up), and bits 31:8
//! are kept as written.
use vstd::prelude::*;
use crate::text::join_text;

verus! {

/// A set of floating-point exception flags (five bits).
#[derive(Debug, Clone, Copy, PartialEq, Eq, Structural)]
pub struct FpFlags {
    bits: u8,
}

impl FpFlags {
    /// Invalid operation.
    pub fn nv() -> (r: FpFlags)
        ensures
            r.value() == 1,
    {
        FpFlags { bits: 1 }
    }

    /// Divide by zero.
    pub fn dz() -> (r: FpFlags)
        ensures
            r.value() == 2,
    {
        FpFlags { bits: 2 }
    }

    /// Overflow.
    pub fn of() -> (r: FpFlags)
        ensures
            r.value() == 4,
    {
        FpFlags { bits: 4 }
    }

    /// Underflow.
    pub fn uf() -> (r: FpFlags)
        ensures
            r.value() == 8,
    {
        FpFlags { bits: 8 }
    }

    /// Inexact.
    pub fn nx() -> (r: FpFlags)
        ensures
            r.value() == 16,
    {
        FpFlags { bits: 16 }
    }

    /// The flag bits as a number below 32.
    pub closed spec fn value(self) -> u8 {
        self.bits
    }

    /// Every flag set has a bit below bit 5.
    pub closed spec fn wf(self) -> bool {
        self.bits < 32
    }

    /// The empty set.
    pub fn empty() -> (r: FpFlags)
        ensures
            r.value() == 0,
    {
        FpFlags { bits: 0 }
    }

    /// The flag bits.
    pub fn bits(&self) -> (r: u8)
        ensures
            r == self.value(),
    {
        self.bits
    }

    /// The flag set with the given bits, if every bit names a flag.
    pub fn from_bits(bits: u8) -> (r: Option<FpFlags>)
        ensures
            bits < 32 ==> (r matches Some(f) && f.value() == bits),
            bits >= 32 ==> r is None,
    {
        if bits < 32 {
            Some(FpFlags { bits })
        } else {
            None
        }
    }

    /// The union of two flag sets.
    pub fn union(self, other: FpFlags) -> (r: FpFlags)
        ensures
            r.value() == self.value() | other.value(),
    {
        FpFlags { bits: self.bits | other.bits }
    }

    /// Whether every flag of `other` is in this set.
    pub fn contains(&self, other: FpFlags) -> (r: bool)
        ensures
            r == (self.value() & other.value() == other.value()),
    {
        self.bits & other.bits == other.bits
    }

    /// Whether no flag is set.
    pub fn is_empty(&self) -> (r: bool)
        ensures
            r == (self.value() == 0),
    {
        self.bits == 0
    }

    /// Adds the flags of `other` to this set.
    pub fn insert(&mut self, other: FpFlags)
        ensures
            final(self).value() == old(self).value() | other.value(),
    {
        self.bits = self.bits | other.bits;
    }
}

/// The floating-point control and status register.
#[derive(Debug, Clone, Copy, PartialEq, Eq, Structural)]
pub struct Fcsr {
    frm: u8,
    flags: FpFlags,
    reserved: u32,
}

/// The 32-bit image of the register fields.
pub open spec fn fcsr_image(frm: u8, flags: u8, reserved: u32) -> u32 {
    ((reserved << 8u32) | ((flags as u32) << 3u32) | (frm as u32)) as u32
}

impl Fcsr {
    /// The rounding-mode field.
    pub closed spec fn frm_spec(&self) -> u8 {
        self.frm
    }

    /// The accrued flags.
    pub closed spec fn flags_spec(&self) -> FpFlags {
        self.flags
    }

    /// Bits 31:8 as last written.
    pub closed spec fn reserved_spec(&self) -> u32 {
        self.reserved
    }

    /// Round-to-nearest-even, no flags, zero upper bits.
    pub fn new() -> (r: Self)
        ensures
            r.frm_spec() == 0,
            r.flags_spec().value() == 0,
            r.reserved_spec() == 0,
    {
        Fcsr { frm: 0, flags: FpFlags::empty(), reserved: 0 }
    }

    /// Returns to the state of `new`.
    pub fn reset(&mut self)
        ensures
            final(self).frm_spec() == 0,
            final(self).flags_spec().value() == 0,
            final(self).reserved_spec() == 0,
    {
        self.frm = 0;
        self.flags = FpFlags::empty();
        self.reserved = 0;
    }

    /// The rounding-mode field.
    pub fn rounding_mode(&self) -> (r: u8)
        ensures
            r == self.frm_spec(),
    {
        self.frm
    }

    /// Sets the rounding mode to the low three bits of `frm`.
    pub fn set_rounding_mode(&mut self, frm: u8)
        ensures
            final(self).frm_spec() == (frm & 7),
            final(self).flags_spec() == old(self).flags_spec(),
            final(self).reserved_spec() == old(self).reserved_spec(),
    {
        self.frm = frm & 0x7;
    }

    /// The accrued flags.
    pub fn flags(&self) -> (r: FpFlags)
        ensures
            r == self.flags_spec(),
    {
        self.flags
    }

    /// Accrues the flags of `flag`.
    pub fn set_flag(&mut self, flag: FpFlags)
        ensures
            final(self).flags_spec().value() == old(self).flags_spec().value() | flag.value(),
            final(self).frm_spec() == old(self).frm_spec(),
            final(self).reserved_spec() == old(self).reserved_spec(),
    {
        self.flags.insert(flag);
    }

    /// Clears every accrued flag.
    pub fn clear_flags(&mut self)
        ensures
            final(self).flags_spec().value() == 0,
            final(self).frm_spec() == old(self).frm_spec(),
            final(self).reserved_spec() == old(self).reserved_spec(),
    {
        self.flags = FpFlags::empty();
    }

    /// Whether any flag is accrued.
    pub fn has_flags(&self) -> (r: bool)
        ensures
            r == (self.flags_spec().value() != 0),
    {
        !self.flags.is_empty()
    }

    /// "fcsr: frm=<frm>, flags=<names>", the names of the set flags joined
    /// by commas, or "none".
    pub fn to_display_string(&self) -> (r: String)
        ensures
            r@ == "fcsr: frm="@ + decimal_text(self.frm_spec()) + ", flags="@ + flags_text(
                self.flags_spec().value(),
            ),
    {
        proof {
            reveal_strlit("NV");
            reveal_strlit("DZ");
            reveal_strlit("OF");
            reveal_strlit("UF");
            reveal_strlit("NX");
        }
        let v = self.flags.bits();
        let ghost p0 = Seq::<Seq<char>>::empty();
        let mut text = String::new();
        let ghost mut parts = p0;
        if v & 1 != 0 {
            text = push_flag(text, Ghost(parts), "NV");
            proof { parts = parts.push("NV"@); }
        }
        if v & 2 != 0 {
            text = push_flag(text, Ghost(parts), "DZ");
            proof { parts = parts.push("DZ"@); }
        }
        if v & 4 != 0 {
            text = push_flag(text, Ghost(parts), "OF");
            proof { parts = parts.push("OF"@); }
        }
        if v & 8 != 0 {
            text = push_flag(text, Ghost(parts), "UF");
            proof { parts = parts.push("UF"@); }
        }
        if v & 16 != 0 {
            text = push_flag(text, Ghost(parts), "NX");
            proof { parts = parts.push("NX"@); }
        }
        assert(parts == flag_parts(v));
        let names = if v & 0x1F == 0 {
            proof {
                assert(v & 0x1F == 0 ==> v & 1 == 0 && v & 2 == 0 && v & 4 == 0 && v & 8 == 0 && v & 16
                    == 0) by (bit_vector);
            }
            String::from_str("none")
        } else {
            proof {
                assert(v & 0x1F != 0 ==> v & 1 != 0 || v & 2 != 0 || v & 4 != 0 || v & 8 != 0 || v & 16
                    != 0) by (bit_vector);
            }
            text
        };
        let head = join_text("fcsr: frm=", decimal_string(self.frm).as_str());
        let middle = join_text(head.as_str(), ", flags=");
        let r = join_text(middle.as_str(), names.as_str());
        r
    }

    /// The 32-bit register image.
    pub fn read(&self) -> (r: u32)
        ensures
            r == fcsr_image(self.frm_spec(), self.flags_spec().value(), self.reserved_spec()),
    {
        let flags: u8 = self.flags.bits();
        (self.reserved << 8) | ((flags as u32) << 3) | (self.frm as u32)
    }

    /// Loads the register from a 32-bit image.  Bits 10:8 feed both the
    /// flag field and the upper field, so they must be clear.
    pub fn write(&mut self, value: u32)
        requires
            ((value >> 3u32) as u8) < 32,
        ensures
            final(self).frm_spec() == (value & 7) as u8,
            final(self).flags_spec().value() == (value >> 3u32) as u8,
            final(self).reserved_spec() == value >> 8u32,
    {
        self.frm = (value & 0x7) as u8;
        self.flags = match FpFlags::from_bits((value >> 3) as u8) {
            Some(f) => f,
            None => FpFlags::empty(),
        };
        self.reserved = value >> 8;
    }

    /// The NaN pattern the register supplies for operations.
    pub fn default_nan(&self) -> (r: u64)
        ensures
            r == 0x7FC0_0000_FFFF_FFFFu64,
    {
        0x7FC0_0000_FFFF_FFFFu64
    }
}

/// The decimal digits of a byte.
pub open spec fn decimal_text(v: u8) -> Seq<char> {
    if v < 10 {
        digit_text(v)
    } else if v < 100 {
        digit_text(v / 10) + digit_text(v % 10)
    } else {
        digit_text(v / 100) + digit_text((v / 10) % 10) + digit_text(v % 10)
    }
}

/// One decimal digit.
pub open spec fn digit_text(d: u8) -> Seq<char> {
    if d == 0 {
        "0"@
    } else if d == 1 {
        "1"@
    } else if d == 2 {
        "2"@
    } else if d == 3 {
        "3"@
    } else if d == 4 {
        "4"@
    } else if d == 5 {
        "5"@
    } else if d == 6 {
        "6"@
    } else if d == 7 {
        "7"@
    } else if d == 8 {
        "8"@
    } else {
        "9"@
    }
}

fn digit_str(d: u8) -> (r: &'static str)
    ensures
        r@ == digit_text(d),
{
    if d == 0 {
        "0"
    } else if d == 1 {
        "1"
    } else if d == 2 {
        "2"
    } else if d == 3 {
        "3"
    } else if d == 4 {
        "4"
    } else if d == 5 {
        "5"
    } else if d == 6 {
        "6"
    } else if d == 7 {
        "7"
    } else if d == 8 {
        "8"
    } else {
        "9"
    }
}

fn decimal_string(v: u8) -> (r: String)
    ensures
        r@ == decimal_text(v),
{
    if v < 10 {
        let r = join_text(digit_str(v), "");
        proof {
            assert(""@.len() == 0) by {
                reveal_strlit("");
            }
            assert(r@ =~= digit_text(v));
        }
        r
    } else if v < 100 {
        join_text(digit_str(v / 10), digit_str(v % 10))
    } else {
        let hi = join_text(digit_str(v / 100), digit_str((v / 10) % 10));
        join_text(hi.as_str(), digit_str(v % 10))
    }
}

/// The names of the set flags (NV, DZ, OF, UF, NX, in that order) joined
/// by commas, or "none".
pub open spec fn flags_text(v: u8) -> Seq<char> {
    let parts = flag_parts(v);
    if parts.len() == 0 {
        "none"@
    } else {
        joined(parts)
    }
}

/// The names of the set flags.
pub open spec fn flag_parts(v: u8) -> Seq<Seq<char>> {
    let p0 = Seq::<Seq<char>>::empty();
    let p1 = if v & 1 != 0 {
        p0.push("NV"@)
    } else {
        p0
    };
    let p2 = if v & 2 != 0 {
        p1.push("DZ"@)
    } else {
        p1
    };
    let p3 = if v & 4 != 0 {
        p2.push("OF"@)
    } else {
        p2
    };
    let p4 = if v & 8 != 0 {
        p3.push("UF"@)
    } else {
        p3
    };
    if v & 16 != 0 {
        p4.push("NX"@)
    } else {
        p4
    }
}

/// Pieces of text joined by commas.
pub open spec fn joined(parts: Seq<Seq<char>>) -> Seq<char>
    decreases parts.len(),
{
    if parts.len() == 0 {
        Seq::empty()
    } else if parts.len() == 1 {
        parts[0]
    } else {
        joined(parts.drop_last()) + ","@ + parts.last()
    }
}

/// Appends a flag name to the text built so far.
fn push_flag(text: String, parts: Ghost<Seq<Seq<char>>>, name: &str) -> (r: String)
    requires
        text@ == joined(parts@),
        forall|i: int| 0 <= i < parts@.len() ==> #[trigger] parts@[i].len() > 0,
        name@.len() > 0,
    ensures
        r@ == joined(parts@.push(name@)),
{
    if text.as_str().is_empty() {
        let r = join_text(text.as_str(), name);
        proof {
            assert(parts@.push(name@).drop_last() =~= parts@);
            if parts@.len() > 0 {
                lemma_joined_nonempty(parts@);
            }
            assert(r@ =~= joined(parts@.push(name@)));
        }
        r
    } else {
        let with_comma = join_text(text.as_str(), ",");
        let r = join_text(with_comma.as_str(), name);
        proof {
            assert(parts@.push(name@).drop_last() =~= parts@);
            if parts@.len() == 0 {
                assert(text@.len() == 0);
            }
            assert(r@ =~= joined(parts@.push(name@)));
        }
        r
    }
}

proof fn lemma_joined_nonempty(parts: Seq<Seq<char>>)
    requires
        parts.len() > 0,
        forall|i: int| 0 <= i < parts.len() ==> #[trigger] parts[i].len() > 0,
    ensures
        joined(parts).len() > 0,
    decreases parts.len(),
{
    reveal_strlit(",");
    if parts.len() > 1 {
        lemma_joined_nonempty(parts.drop_last());
    }
}

/// Writing the image a register reads back restores its rounding mode and
/// flags, and its upper bits as far as the image holds them (24 bits), when
/// the lowest three of those bits are clear.
pub proof fn lemma_fcsr_image_roundtrip(frm: u8, flags: u8, reserved: u32)
    by (bit_vector)
    requires
        frm < 8,
        flags < 32,
        reserved & 7 == 0,
    ensures
        (fcsr_image(frm, flags, reserved) & 7) as u8 == frm,
        (fcsr_image(frm, flags, reserved) >> 3u32) as u8 == flags,
        ((fcsr_image(frm, flags, reserved) >> 3u32) as u8) < 32,
        fcsr_image(frm, flags, reserved) >> 8u32 == reserved & 0xFF_FFFF,
{
}

/// Rounding modes of the `frm` field.
#[derive(Debug, Clone, Copy, PartialEq, Eq, Structural)]
pub enum RoundingMode {
    RNE,
    RTZ,
    RDN,
    RUP,
    RMM,
}

/// The rounding mode the low three bits of `frm` select (reserved values select RNE).
pub open spec fn rounding_mode_of(frm: u8) -> RoundingMode {
    let f = frm & 7;
    if f == 1 {
        RoundingMode::RTZ
    } else if f == 2 {
        RoundingMode::RDN
    } else if f == 3 {
        RoundingMode::RUP
    } else if f == 4 {
        RoundingMode::RMM
    } else {
        RoundingMode::RNE
    }
}

impl RoundingMode {
    /// The rounding mode of an `frm` value; reserved encodings give RNE.
    pub fn from_frm(frm: u8) -> (r: Self)
        ensures
            r == rounding_mode_of(frm),
    {
        let f = frm & 0x7;
        if f == 1 {
            RoundingMode::RTZ
        } else if f == 2 {
            RoundingMode::RDN
        } else if f == 3 {
            RoundingMode::RUP
        } else if f == 4 {
            RoundingMode::RMM
        } else {
            RoundingMode::RNE
        }
    }
}

} // verus!
