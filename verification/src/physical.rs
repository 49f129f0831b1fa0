//! Physical access widths, spans and atomic operation widths.
use vstd::prelude::*;
use crate::hart_amods::{AmoOperation, compute, compute_spec};

verus! {

/// The width of one physical access.
#[derive(Debug, Clone, Copy, PartialEq, Eq, Structural)]
pub enum PhysicalWidth {
    Byte,
    Half,
    Word,
    Doubleword,
}

/// The number of bytes of a width.
pub open spec fn width_bytes(w: PhysicalWidth) -> u64 {
    match w {
        PhysicalWidth::Byte => 1,
        PhysicalWidth::Half => 2,
        PhysicalWidth::Word => 4,
        PhysicalWidth::Doubleword => 8,
    }
}

impl PhysicalWidth {
    /// The number of bytes.
    pub fn bytes(self) -> (r: usize)
        ensures
            r == width_bytes(self),
    {
        match self {
            PhysicalWidth::Byte => 1,
            PhysicalWidth::Half => 2,
            PhysicalWidth::Word => 4,
            PhysicalWidth::Doubleword => 8,
        }
    }
}

/// A byte span: a start address and a width.
#[derive(Debug, Clone, Copy, PartialEq, Eq, Structural)]
pub struct PhysicalSpan {
    /// The first byte.
    pub paddr: u64,
    /// The width.
    pub width: PhysicalWidth,
}

/// The last byte of a span, unless the span wraps past the end of the address space.
pub open spec fn span_end_inclusive(s: PhysicalSpan) -> Option<u64> {
    if s.paddr + width_bytes(s.width) - 1 <= u64::MAX {
        Some((s.paddr + width_bytes(s.width) - 1) as u64)
    } else {
        None
    }
}

impl PhysicalSpan {
    /// The last byte of the span, or `None` when it wraps.
    pub fn checked_end_inclusive(&self) -> (r: Option<u64>)
        ensures
            r == span_end_inclusive(*self),
    {
        let last = self.width.bytes() as u64 - 1;
        self.paddr.checked_add(last)
    }
}

/// The width of an atomic memory operation.
#[derive(Debug, Clone, Copy, PartialEq, Eq, Structural)]
pub enum AmoWidth {
    Word,
    Doubleword,
}

/// The number of bytes of an AMO width.
pub open spec fn amo_width_bytes(w: AmoWidth) -> u64 {
    match w {
        AmoWidth::Word => 4,
        AmoWidth::Doubleword => 8,
    }
}

impl AmoWidth {
    /// The number of bytes.
    pub fn bytes(self) -> (r: usize)
        ensures
            r == amo_width_bytes(self),
    {
        match self {
            AmoWidth::Word => 4,
            AmoWidth::Doubleword => 8,
        }
    }

    /// The physical width of the span.
    pub fn physical_width(self) -> (r: PhysicalWidth)
        ensures
            width_bytes(r) == amo_width_bytes(self),
            self == AmoWidth::Word ==> r == PhysicalWidth::Word,
            self == AmoWidth::Doubleword ==> r == PhysicalWidth::Doubleword,
    {
        match self {
            AmoWidth::Word => PhysicalWidth::Word,
            AmoWidth::Doubleword => PhysicalWidth::Doubleword,
        }
    }
}

/// The acquire/release ordering bits of an atomic instruction.
#[derive(Debug, Clone, Copy, PartialEq, Eq, Structural)]
pub struct AtomicOrdering {
    /// Acquire.
    pub aq: bool,
    /// Release.
    pub rl: bool,
}

/// The byte transform an AMO read-modify-write applies to its span.
#[derive(Debug, Clone, Copy, PartialEq, Eq, Structural)]
pub struct AmoTransform {
    /// The span width.
    pub width: AmoWidth,
    /// The operation.
    pub operation: AmoOperation,
}

impl AmoTransform {
    /// The transform of `operation` over spans of `width`.
    pub fn new(width: AmoWidth, operation: AmoOperation) -> (r: Self)
        ensures
            r.width == width,
            r.operation == operation,
    {
        AmoTransform { width, operation }
    }

    /// The new span bytes for the old span bytes and the operand bytes.
    pub fn apply(&self, old: &[u8], operand: &[u8]) -> (r: [u8; 8])
        ensures
            r@ == compute_spec(self.operation, self.width, old@, operand@),
    {
        compute(self.operation, self.width, old, operand)
    }
}

} // verus!
