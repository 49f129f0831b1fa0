//! Load-reserved / store-conditional.
use vstd::prelude::*;
use crate::arith::{sext32, sign_extend_32};
use crate::cpu::{CoreState, reg_write, same_but_regs};
use crate::decode::DecodedInstruction;
use crate::execute::ExecuteError;
use crate::memory::{MemoryInterface, SimpleMemory, access_check, checked, le32, le64, store_le};
use crate::physical::{PhysicalSpan, PhysicalWidth, span_end_inclusive, width_bytes};

verus! {

/// This hart's reservation: the exact reserved byte span, and the
/// committed-write snapshot when the reservation was made through the
/// versioned route.
#[derive(Debug, Clone, PartialEq, Eq)]
pub struct ReservationSet {
    /// The reserved span.
    pub reserved: PhysicalSpan,
    /// The committed-write versions of the span at reservation time.
    pub snapshot: Option<Vec<u8>>,
}

/// Whether span `[paddr, paddr + width)` lies inside the reserved span,
/// neither of them wrapping.
pub open spec fn covers_spec(reserved: PhysicalSpan, paddr: u64, width: PhysicalWidth) -> bool {
    let s = PhysicalSpan { paddr, width };
    &&& span_end_inclusive(reserved) is Some
    &&& span_end_inclusive(s) is Some
    &&& reserved.paddr <= paddr
    &&& span_end_inclusive(s)->0 <= span_end_inclusive(reserved)->0
}

/// Two reservation slots hold the same span and the same snapshot bytes.
pub open spec fn same_reservation(a: Option<ReservationSet>, b: Option<ReservationSet>) -> bool {
    match (a, b) {
        (None, None) => true,
        (Some(x), Some(y)) => x.reserved == y.reserved && match (x.snapshot, y.snapshot) {
            (None, None) => true,
            (Some(p), Some(q)) => p@ == q@,
            _ => false,
        },
        _ => false,
    }
}

impl ReservationSet {
    /// A copy of this reservation.
    pub(crate) fn duplicate(&self) -> (r: Self)
        ensures
            same_reservation(Some(r), Some(*self)),
    {
        let snapshot = match &self.snapshot {
            Some(v) => {
                let c = v.clone();
                assert(c@ =~= v@);
                Some(c)
            },
            None => None,
        };
        ReservationSet { reserved: self.reserved, snapshot }
    }

    /// A reservation of `width` bytes at `paddr`.
    pub fn new(paddr: u64, width: PhysicalWidth, snapshot: Option<Vec<u8>>) -> (r: Self)
        ensures
            r.reserved == (PhysicalSpan { paddr, width }),
            r.snapshot == snapshot,
    {
        ReservationSet { reserved: PhysicalSpan { paddr, width }, snapshot }
    }

    /// Whether the reserved span contains `[paddr, paddr + width)`.
    pub fn covers(&self, paddr: u64, width: PhysicalWidth) -> (r: bool)
        ensures
            r == covers_spec(self.reserved, paddr, width),
    {
        let reserved_end = match self.reserved.checked_end_inclusive() {
            Some(e) => e,
            None => return false,
        };
        let span = PhysicalSpan { paddr, width };
        let span_end = match span.checked_end_inclusive() {
            Some(e) => e,
            None => return false,
        };
        self.reserved.paddr <= paddr && span_end <= reserved_end
    }
}

/// The effect of a load-reserved of `width` (Word or Doubleword).
pub open spec fn lr_effect(
    instr: DecodedInstruction,
    width: PhysicalWidth,
    s0: CoreState,
    m0: Seq<u8>,
    s1: CoreState,
    r: Result<(), ExecuteError>,
) -> bool {
    &&& s1.pc == s0.pc && s1.fpr == s0.fpr && s1.fcsr == s0.fcsr && s1.csr == s0.csr
    &&& s1.privilege == s0.privilege && s1.branch_taken == s0.branch_taken
    &&& match (instr.rs1, instr.rd) {
        (Some(rs1), Some(rd)) => {
            let a = s0.regs@[rs1 as int];
            let loaded = if width == PhysicalWidth::Word {
                checked(access_check(m0.len(), a, 4), sext32(le32(m0, a as int)))
            } else {
                checked(access_check(m0.len(), a, 8), le64(m0, a as int))
            };
            match loaded {
                Ok(v) => {
                    &&& r is Ok
                    &&& s1.regs@ == reg_write(s0.regs@, rd, v)
                    &&& s1.reservation == Some(
                        ReservationSet { reserved: PhysicalSpan { paddr: a, width }, snapshot: None },
                    )
                },
                Err(e) => r == Err::<(), ExecuteError>(ExecuteError::MemoryError(e)) && s1.regs
                    == s0.regs && s1.reservation == s0.reservation,
            }
        },
        _ => r == Err::<(), ExecuteError>(ExecuteError::InvalidOperation) && s1.regs == s0.regs
            && s1.reservation == s0.reservation,
    }
}

/// LR.D: loads the doubleword at `rs1` into `rd` and replaces this hart's
/// reservation with that 8-byte span.  A faulting load keeps the prior
/// reservation.
pub fn exec_lr(instr: &DecodedInstruction, state: &mut CoreState, mem: &mut SimpleMemory) -> (r:
    Result<(), ExecuteError>)
    requires
        instr.wf(),
    ensures
        *final(mem) == *old(mem),
        lr_effect(*instr, PhysicalWidth::Doubleword, *old(state), old(mem)@, *final(state), r),
{
    let (rs1, rd) = match (instr.rs1, instr.rd) {
        (Some(rs1), Some(rd)) => (rs1, rd),
        _ => return Err(ExecuteError::InvalidOperation),
    };
    let addr = state.regs[rs1 as usize];
    let value = match mem.read_dword(addr) {
        Ok(v) => v,
        Err(e) => return Err(ExecuteError::MemoryError(e)),
    };
    state.reservation = Some(ReservationSet::new(addr, PhysicalWidth::Doubleword, None));
    state.write_reg(rd, value);
    Ok(())
}

/// LR.W: loads the word at `rs1` sign-extended into `rd` and replaces this
/// hart's reservation with that 4-byte span.
pub fn exec_lr_w(instr: &DecodedInstruction, state: &mut CoreState, mem: &mut SimpleMemory) -> (r:
    Result<(), ExecuteError>)
    requires
        instr.wf(),
    ensures
        *final(mem) == *old(mem),
        lr_effect(*instr, PhysicalWidth::Word, *old(state), old(mem)@, *final(state), r),
{
    let (rs1, rd) = match (instr.rs1, instr.rd) {
        (Some(rs1), Some(rd)) => (rs1, rd),
        _ => return Err(ExecuteError::InvalidOperation),
    };
    let addr = state.regs[rs1 as usize];
    let value = match mem.read_word(addr) {
        Ok(v) => v,
        Err(e) => return Err(ExecuteError::MemoryError(e)),
    };
    state.reservation = Some(ReservationSet::new(addr, PhysicalWidth::Word, None));
    state.write_reg(rd, sign_extend_32(value));
    Ok(())
}

/// Whether the reservation of a state covers an SC span.
pub open spec fn sc_covered(s: CoreState, a: u64, width: PhysicalWidth) -> bool {
    s.reservation matches Some(res) && covers_spec(res.reserved, a, width)
}

/// The effect of a store-conditional of `width` (Word or Doubleword).
pub open spec fn sc_effect(
    instr: DecodedInstruction,
    width: PhysicalWidth,
    s0: CoreState,
    m0: Seq<u8>,
    s1: CoreState,
    m1: Seq<u8>,
    r: Result<(), ExecuteError>,
) -> bool {
    &&& s1.pc == s0.pc && s1.fpr == s0.fpr && s1.fcsr == s0.fcsr && s1.csr == s0.csr
    &&& s1.privilege == s0.privilege && s1.branch_taken == s0.branch_taken
    &&& match (instr.rs1, instr.rs2, instr.rd) {
        (Some(rs1), Some(rs2), Some(rd)) => {
            let a = s0.regs@[rs1 as int];
            let w = width_bytes(width) as nat;
            if !sc_covered(s0, a, width) {
                r is Ok && m1 == m0 && s1.regs@ == reg_write(s0.regs@, rd, 1) && s1.reservation is None
            } else {
                match access_check(m0.len(), a, w) {
                    Ok(()) => r is Ok && m1 == store_le(m0, a as int, w as int, s0.regs@[rs2 as int])
                        && s1.regs@ == reg_write(s0.regs@, rd, 0) && s1.reservation is None,
                    Err(e) => r == Err::<(), ExecuteError>(ExecuteError::MemoryError(e)) && m1 == m0
                        && s1.regs == s0.regs && s1.reservation == s0.reservation,
                }
            }
        },
        _ => r == Err::<(), ExecuteError>(ExecuteError::InvalidOperation) && m1 == m0 && s1.regs
            == s0.regs && s1.reservation == s0.reservation,
    }
}

/// The shared store-conditional: when the reservation covers the span,
/// store the low `width` bytes of `rs2` and retire 0; otherwise store
/// nothing and retire 1.  A completed SC consumes the reservation; one whose
/// write faults retains it.
fn exec_sc_typed(
    instr: &DecodedInstruction,
    state: &mut CoreState,
    mem: &mut SimpleMemory,
    width: PhysicalWidth,
) -> (r: Result<(), ExecuteError>)
    requires
        instr.wf(),
        width == PhysicalWidth::Word || width == PhysicalWidth::Doubleword,
    ensures
        sc_effect(*instr, width, *old(state), old(mem)@, *final(state), final(mem)@, r),
{
    let (rs1, rs2, rd) = match (instr.rs1, instr.rs2, instr.rd) {
        (Some(rs1), Some(rs2), Some(rd)) => (rs1, rs2, rd),
        _ => return Err(ExecuteError::InvalidOperation),
    };
    let addr = state.regs[rs1 as usize];
    let value = state.regs[rs2 as usize];
    let covered = match &state.reservation {
        Some(reservation) => reservation.covers(addr, width),
        None => false,
    };
    if !covered {
        state.reservation = None;
        state.write_reg(rd, 1);
        return Ok(());
    }
    let written = match width {
        PhysicalWidth::Word => {
            let res = mem.write_word(addr, value as u32);
            proof {
                assert(res is Ok ==> final(mem)@ =~= store_le(old(mem)@, addr as int, 4, value)) by {
                    crate::memory::lemma_narrow_bytes(value);
                }
            }
            res
        },
        _ => mem.write_dword(addr, value),
    };
    match written {
        Ok(()) => {},
        Err(e) => return Err(ExecuteError::MemoryError(e)),
    }
    state.reservation = None;
    state.write_reg(rd, 0);
    Ok(())
}

/// SC.D: conditionally stores the doubleword `rs2` at `rs1`; `rd` receives
/// 0 on success and 1 when the reservation does not cover the span.
pub fn exec_sc(instr: &DecodedInstruction, state: &mut CoreState, mem: &mut SimpleMemory) -> (r:
    Result<(), ExecuteError>)
    requires
        instr.wf(),
    ensures
        sc_effect(
            *instr,
            PhysicalWidth::Doubleword,
            *old(state),
            old(mem)@,
            *final(state),
            final(mem)@,
            r,
        ),
{
    exec_sc_typed(instr, state, mem, PhysicalWidth::Doubleword)
}

/// SC.W: conditionally stores the low word of `rs2` at `rs1`.
pub fn exec_sc_w(instr: &DecodedInstruction, state: &mut CoreState, mem: &mut SimpleMemory) -> (r:
    Result<(), ExecuteError>)
    requires
        instr.wf(),
    ensures
        sc_effect(*instr, PhysicalWidth::Word, *old(state), old(mem)@, *final(state), final(mem)@, r),
{
    exec_sc_typed(instr, state, mem, PhysicalWidth::Word)
}

} // verus!
