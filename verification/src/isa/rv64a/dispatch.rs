//! Decoding and dispatch of the AMO major opcode.
//!
//! `funct5` (bits 31:27) selects the operation, `funct3` (bits 14:12)
//! selects W (010) or D (011), and `aq`/`rl` (bits 26 and 25) are recorded
//! as ordering bits.  Unassigned `funct5` values, other `funct3` values, LR
//! with `rs2 != x0`, and missing register fields are illegal instructions.
use vstd::prelude::*;
use crate::arith::sext32;
use crate::cpu::CoreState;
use crate::decode::DecodedInstruction;
use crate::execute::ExecuteError;
use crate::cpu::reg_write;
use crate::hart_amods::{AmoOperation, amo_value, compute, compute_spec, le_bytes, le_value};
use crate::memory::{
    MemoryInterface, ScRejection, SimpleMemory, byte_of, contains_range, committed_write, encode_versions, le32, le64,
    lemma_disjoint_write_keeps_snapshot, lemma_overlapping_write_breaks_snapshot, padded8,
    sc_precheck, span_inside, store_bytes, store_le, versions_bounded, committed_run, touches,
    lemma_run_keeps_snapshot_iff_untouched,
};
use crate::memory::MemoryError;
use crate::physical::{AmoWidth, AtomicOrdering, PhysicalSpan, PhysicalWidth, amo_width_bytes, width_bytes};
use super::amo::{amo_effect, amo_old, amo_rd_value, exec_amo_rmw};
use super::lr_sc::{
    ReservationSet, covers_spec, exec_lr, exec_lr_w, exec_sc, exec_sc_w, lr_effect, sc_effect,
};

verus! {

/// The instruction family `funct5` selects.
#[derive(Debug, Clone, Copy, PartialEq, Eq, Structural)]
pub enum AmoKind {
    /// A read-modify-write operation.
    Rmw(AmoOperation),
    /// Load-reserved (funct5 00010, rs2 must be x0).
    LoadReserved,
    /// Store-conditional (funct5 00011).
    StoreConditional,
}

/// One decoded AMO-major-opcode instruction.
#[derive(Debug, Clone, Copy, PartialEq, Eq, Structural)]
pub struct DecodedAmo {
    /// The instruction family and operation.
    pub kind: AmoKind,
    /// Word or doubleword.
    pub width: AmoWidth,
    /// The aq/rl bits.
    pub ordering: AtomicOrdering,
    /// The destination register.
    pub rd: usize,
    /// The address register.
    pub rs1: usize,
    /// The operand or store-data register.
    pub rs2: usize,
}

/// The `funct5` field of an instruction word.
pub open spec fn funct5_of(raw: u32) -> u32 {
    (raw >> 27u32) & 0x1F
}

/// The family a `funct5` value selects, if it is assigned.
pub open spec fn amo_kind_of(funct5: u32) -> Option<AmoKind> {
    if funct5 == 0 {
        Some(AmoKind::Rmw(AmoOperation::Add))
    } else if funct5 == 1 {
        Some(AmoKind::Rmw(AmoOperation::Swap))
    } else if funct5 == 2 {
        Some(AmoKind::LoadReserved)
    } else if funct5 == 3 {
        Some(AmoKind::StoreConditional)
    } else if funct5 == 4 {
        Some(AmoKind::Rmw(AmoOperation::BitXor))
    } else if funct5 == 8 {
        Some(AmoKind::Rmw(AmoOperation::BitOr))
    } else if funct5 == 12 {
        Some(AmoKind::Rmw(AmoOperation::BitAnd))
    } else if funct5 == 16 {
        Some(AmoKind::Rmw(AmoOperation::Min))
    } else if funct5 == 20 {
        Some(AmoKind::Rmw(AmoOperation::Max))
    } else if funct5 == 24 {
        Some(AmoKind::Rmw(AmoOperation::Minu))
    } else if funct5 == 28 {
        Some(AmoKind::Rmw(AmoOperation::Maxu))
    } else {
        None
    }
}

/// The width `funct3` selects, if it is W or D.
pub open spec fn amo_width_of(raw: u32) -> Option<AmoWidth> {
    let f3 = (raw >> 12u32) & 7;
    if f3 == 2 {
        Some(AmoWidth::Word)
    } else if f3 == 3 {
        Some(AmoWidth::Doubleword)
    } else {
        None
    }
}

/// The decoding of an AMO-major-opcode instruction.
pub open spec fn decode_amo_spec(instr: DecodedInstruction) -> Result<DecodedAmo, ExecuteError> {
    match amo_width_of(instr.raw) {
        None => Err(ExecuteError::IllegalInstruction),
        Some(width) => match amo_kind_of(funct5_of(instr.raw)) {
            None => Err(ExecuteError::IllegalInstruction),
            Some(kind) => if kind == AmoKind::LoadReserved && instr.rs2 != Some(0u8) {
                Err(ExecuteError::IllegalInstruction)
            } else {
                match (instr.rd, instr.rs1, instr.rs2) {
                    (Some(rd), Some(rs1), Some(rs2)) => Ok(
                        DecodedAmo {
                            kind,
                            width,
                            ordering: AtomicOrdering {
                                aq: (instr.raw >> 26u32) & 1 != 0,
                                rl: (instr.raw >> 25u32) & 1 != 0,
                            },
                            rd: rd as usize,
                            rs1: rs1 as usize,
                            rs2: rs2 as usize,
                        },
                    ),
                    _ => Err(ExecuteError::IllegalInstruction),
                }
            },
        },
    }
}

fn amo_kind(funct5: u32) -> (r: Option<AmoKind>)
    ensures
        r == amo_kind_of(funct5),
{
    if funct5 == 0 {
        Some(AmoKind::Rmw(AmoOperation::Add))
    } else if funct5 == 1 {
        Some(AmoKind::Rmw(AmoOperation::Swap))
    } else if funct5 == 2 {
        Some(AmoKind::LoadReserved)
    } else if funct5 == 3 {
        Some(AmoKind::StoreConditional)
    } else if funct5 == 4 {
        Some(AmoKind::Rmw(AmoOperation::BitXor))
    } else if funct5 == 8 {
        Some(AmoKind::Rmw(AmoOperation::BitOr))
    } else if funct5 == 12 {
        Some(AmoKind::Rmw(AmoOperation::BitAnd))
    } else if funct5 == 16 {
        Some(AmoKind::Rmw(AmoOperation::Min))
    } else if funct5 == 20 {
        Some(AmoKind::Rmw(AmoOperation::Max))
    } else if funct5 == 24 {
        Some(AmoKind::Rmw(AmoOperation::Minu))
    } else if funct5 == 28 {
        Some(AmoKind::Rmw(AmoOperation::Maxu))
    } else {
        None
    }
}

/// Decodes one AMO-major-opcode instruction.
pub fn decode_amo(instr: &DecodedInstruction) -> (r: Result<DecodedAmo, ExecuteError>)
    ensures
        r == decode_amo_spec(*instr),
{
    let funct5 = (instr.raw >> 27) & 0x1f;
    let ordering = AtomicOrdering { aq: (instr.raw >> 26) & 1 != 0, rl: (instr.raw >> 25) & 1 != 0 };
    let f3 = (instr.raw >> 12) & 0x7;
    let width = if f3 == 2 {
        AmoWidth::Word
    } else if f3 == 3 {
        AmoWidth::Doubleword
    } else {
        return Err(ExecuteError::IllegalInstruction);
    };
    let kind = match amo_kind(funct5) {
        Some(k) => k,
        None => return Err(ExecuteError::IllegalInstruction),
    };
    if let AmoKind::LoadReserved = kind {
        match instr.rs2 {
            Some(0) => {},
            _ => return Err(ExecuteError::IllegalInstruction),
        }
    }
    match (instr.rd, instr.rs1, instr.rs2) {
        (Some(rd), Some(rs1), Some(rs2)) => Ok(
            DecodedAmo { kind, width, ordering, rd: rd as usize, rs1: rs1 as usize, rs2: rs2 as usize },
        ),
        _ => Err(ExecuteError::IllegalInstruction),
    }
}

/// Whether an AMO-major-opcode encoding is legal.
pub fn amo_encoding_is_legal(instr: &DecodedInstruction) -> (r: bool)
    ensures
        r == decode_amo_spec(*instr) is Ok,
{
    decode_amo(instr).is_ok()
}

/// What the typed AMO dispatcher does: a decoding error leaves everything
/// unchanged, otherwise the selected instruction's effect.
pub open spec fn amo_typed_post(
    instr: DecodedInstruction,
    s0: CoreState,
    s1: CoreState,
    m0: SimpleMemory,
    m1: SimpleMemory,
    r: Result<(), ExecuteError>,
) -> bool {
    match decode_amo_spec(instr) {
        Err(e) => r == Err::<(), ExecuteError>(e) && s1 == s0 && m1 == m0,
        Ok(d) => match d.kind {
            AmoKind::Rmw(op) => amo_effect(instr, op, d.width, s0, m0@, s1, m1@, r),
            AmoKind::LoadReserved => m1 == m0 && lr_effect(
                instr,
                if d.width == AmoWidth::Word {
                    PhysicalWidth::Word
                } else {
                    PhysicalWidth::Doubleword
                },
                s0,
                m0@,
                s1,
                r,
            ),
            AmoKind::StoreConditional => sc_effect(
                instr,
                if d.width == AmoWidth::Word {
                    PhysicalWidth::Word
                } else {
                    PhysicalWidth::Doubleword
                },
                s0,
                m0@,
                s1,
                m1@,
                r,
            ),
        },
    }
}

/// Executes one AMO-major-opcode instruction over typed memory accesses.
pub fn execute_amo_typed(instr: &DecodedInstruction, state: &mut CoreState, mem: &mut SimpleMemory) -> (r:
    Result<(), ExecuteError>)
    requires
        instr.wf(),
    ensures
        amo_typed_post(*instr, *old(state), *final(state), *old(mem), *final(mem), r),
{
    let d = match decode_amo(instr) {
        Ok(d) => d,
        Err(e) => return Err(e),
    };
    match (d.kind, d.width) {
        (AmoKind::Rmw(operation), width) => exec_amo_rmw(instr, state, mem, operation, width),
        (AmoKind::LoadReserved, AmoWidth::Word) => exec_lr_w(instr, state, mem),
        (AmoKind::LoadReserved, AmoWidth::Doubleword) => exec_lr(instr, state, mem),
        (AmoKind::StoreConditional, AmoWidth::Word) => exec_sc_w(instr, state, mem),
        (AmoKind::StoreConditional, AmoWidth::Doubleword) => exec_sc(instr, state, mem),
    }
}

/// The value an AMO retires into `rd` from the old span bytes: the word
/// sign-extended, or the doubleword.
pub fn old_value(width: AmoWidth, old: &[u8]) -> (r: u64)
    requires
        old@.len() >= amo_width_bytes(width),
    ensures
        r == (match width {
            AmoWidth::Word => sext32(le_value(old@, width) as u32),
            AmoWidth::Doubleword => le_value(old@, width),
        }),
{
    match width {
        AmoWidth::Word => {
            let v: u32 = (old[0] as u32) | ((old[1] as u32) << 8) | ((old[2] as u32) << 16) | ((
            old[3] as u32) << 24);
            crate::arith::sign_extend_32(v)
        },
        AmoWidth::Doubleword => (old[0] as u64) | ((old[1] as u64) << 8) | ((old[2] as u64) << 16)
            | ((old[3] as u64) << 24) | ((old[4] as u64) << 32) | ((old[5] as u64) << 40) | ((
        old[6] as u64) << 48) | ((old[7] as u64) << 56),
    }
}

/// The span width of an AMO width.
pub open spec fn amo_physical_width(w: AmoWidth) -> PhysicalWidth {
    match w {
        AmoWidth::Word => PhysicalWidth::Word,
        AmoWidth::Doubleword => PhysicalWidth::Doubleword,
    }
}

/// What the versioned AMO route does.  A decoding error changes nothing.
/// Otherwise, with `a` the address in `rs1` and `w` the span width:
/// LR reads the span and records a reservation carrying the span's version
/// snapshot; SC without a reservation, or with one that does not cover the
/// span, retires `rd = 1`; an SC whose snapshot still matches writes `rs2`
/// and retires `rd = 0`, and one whose snapshot is stale retires `rd = 1`;
/// every executed SC consumes the reservation; an RMW writes the operation's
/// result and retires the old value.  A span outside memory faults with the
/// address and changes nothing else.
pub open spec fn amo_port_post(
    instr: DecodedInstruction,
    s0: CoreState,
    s1: CoreState,
    m0: SimpleMemory,
    m1: SimpleMemory,
    r: Result<(), ExecuteError>,
) -> bool {
    match decode_amo_spec(instr) {
        Err(e) => r == Err::<(), ExecuteError>(e) && s1 == s0 && m1 == m0,
        Ok(d) => {
            let rd = instr.rd->0;
            let a = s0.regs@[instr.rs1->0 as int];
            let v = s0.regs@[instr.rs2->0 as int];
            let w = amo_width_bytes(d.width);
            let pw = amo_physical_width(d.width);
            let inside = span_inside(0, m0@.len(), a, w as nat);
            &&& s1.pc == s0.pc && s1.fpr == s0.fpr && s1.fcsr == s0.fcsr && s1.csr == s0.csr
            &&& s1.privilege == s0.privilege && s1.branch_taken == s0.branch_taken
            &&& match d.kind {
                AmoKind::LoadReserved => m1 == m0 && if inside {
                    &&& r is Ok
                    &&& s1.regs@ == reg_write(
                        s0.regs@,
                        rd,
                        amo_rd_value(d.width, amo_old(m0@, d.width, a)),
                    )
                    &&& s1.reservation matches Some(res)
                    &&& res.reserved == PhysicalSpan { paddr: a, width: pw }
                    &&& res.snapshot matches Some(snap)
                    &&& snap@ == encode_versions(m0.versions().subrange(a as int, a + w))
                } else {
                    r == Err::<(), ExecuteError>(
                        ExecuteError::MemoryError(MemoryError::InvalidAddress(a)),
                    ) && s1.regs == s0.regs && s1.reservation == s0.reservation
                },
                AmoKind::StoreConditional => match s0.reservation {
                    None => r is Ok && m1 == m0 && s1.regs@ == reg_write(s0.regs@, rd, 1)
                        && s1.reservation is None,
                    Some(res) => if !inside {
                        r == Err::<(), ExecuteError>(
                            ExecuteError::MemoryError(MemoryError::InvalidAddress(a)),
                        ) && m1 == m0 && s1.regs == s0.regs && s1.reservation == s0.reservation
                    } else if !covers_spec(res.reserved, a, pw) {
                        r is Ok && m1 == m0 && s1.regs@ == reg_write(s0.regs@, rd, 1) && s1.reservation is None
                    } else {
                        match res.snapshot {
                            None => (r matches Err(ExecuteError::MemoryError(MemoryError::Protocol(_))))
                                && m1 == m0 && s1.regs == s0.regs && s1.reservation == s0.reservation,
                            Some(snap) => match sc_precheck(
                                m0@.len(),
                                a,
                                w as usize,
                                w as nat,
                                res.reserved.paddr,
                                width_bytes(res.reserved.width) as usize,
                                snap@.len(),
                            ) {
                                Some(ScRejection::Protocol) => (r matches Err(
                                    ExecuteError::MemoryError(MemoryError::Protocol(_)),
                                )) && m1 == m0 && s1.regs == s0.regs && s1.reservation == s0.reservation,
                                Some(ScRejection::InvalidAddress(x)) => r == Err::<(), ExecuteError>(
                                    ExecuteError::MemoryError(MemoryError::InvalidAddress(x)),
                                ) && m1 == m0 && s1.regs == s0.regs && s1.reservation == s0.reservation,
                                None => s1.reservation is None && if encode_versions(
                                    m0.versions().subrange(
                                        res.reserved.paddr as int,
                                        res.reserved.paddr + width_bytes(res.reserved.width),
                                    ),
                                ) == snap@ {
                                    &&& r is Ok
                                    &&& m1@ == store_le(m0@, a as int, w as int, v)
                                    &&& committed_write(m0, m1, a as int, w as int)
                                    &&& s1.regs@ == reg_write(s0.regs@, rd, 0)
                                } else {
                                    r is Ok && m1 == m0 && s1.regs@ == reg_write(s0.regs@, rd, 1)
                                },
                            },
                        }
                    },
                },
                AmoKind::Rmw(op) => s1.reservation == s0.reservation && if inside {
                    let old = amo_old(m0@, d.width, a);
                    &&& r is Ok
                    &&& m1@ == store_le(m0@, a as int, w as int, amo_value(op, d.width, old, v))
                    &&& committed_write(m0, m1, a as int, w as int)
                    &&& s1.regs@ == reg_write(s0.regs@, rd, amo_rd_value(d.width, old))
                } else {
                    r == Err::<(), ExecuteError>(
                        ExecuteError::MemoryError(MemoryError::InvalidAddress(a)),
                    ) && m1 == m0 && s1.regs == s0.regs
                },
            }
        },
    }
}

/// The first `n` little-endian bytes of `v`.
fn le_prefix(v: u64, n: usize) -> (r: Vec<u8>)
    requires
        n <= 8,
    ensures
        r@ == le_bytes(v).subrange(0, n as int),
{
    let bytes = crate::hart_amods::to_le_bytes(v);
    let mut out: Vec<u8> = Vec::new();
    let mut i: usize = 0;
    while i < n
        invariant
            n <= 8,
            i <= n,
            bytes@ == le_bytes(v),
            out@ == le_bytes(v).subrange(0, i as int),
        decreases n - i,
    {
        out.push(bytes[i]);
        assert(out@ =~= le_bytes(v).subrange(0, i + 1));
        i = i + 1;
    }
    out
}

/// The old value read from a span, and the operand taken from `le_bytes`,
/// agree with the typed little-endian reads.
proof fn lemma_span_values(m: Seq<u8>, a: u64, width: AmoWidth, v: u64)
    requires
        a + amo_width_bytes(width) <= m.len(),
    ensures
        le_value(m.subrange(a as int, a + amo_width_bytes(width)), width) == amo_old(m, width, a),
        le_value(padded8(m.subrange(a as int, a + amo_width_bytes(width))), width) == amo_old(m, width, a),
        width == AmoWidth::Word ==> le_value(le_bytes(v).subrange(0, 4), width) == (v as u32) as u64,
        width == AmoWidth::Doubleword ==> le_value(le_bytes(v).subrange(0, 8), width) == v,
{
    let w = amo_width_bytes(width) as int;
    let ai = a as int;
    let sub = m.subrange(ai, ai + w);
    let p = padded8(sub);
    assert forall|i: int| 0 <= i < w implies #[trigger] sub[i] == m[ai + i] && p[i] == m[ai + i] by {}
    let lb = le_bytes(v);
    assert(lb[0] == v as u8 && lb[1] == (v >> 8u64) as u8 && lb[2] == (v >> 16u64) as u8 && lb[3] == (v
        >> 24u64) as u8);
    assert(lb[4] == (v >> 32u64) as u8 && lb[5] == (v >> 40u64) as u8 && lb[6] == (v >> 48u64) as u8
        && lb[7] == (v >> 56u64) as u8);
    if width == AmoWidth::Word {
        assert(sub[0] == m[ai] && sub[1] == m[ai + 1] && sub[2] == m[ai + 2] && sub[3] == m[ai + 3]);
        assert(p[0] == m[ai] && p[1] == m[ai + 1] && p[2] == m[ai + 2] && p[3] == m[ai + 3]);
        let lw = le_bytes(v).subrange(0, 4);
        assert(lw[0] == lb[0] && lw[1] == lb[1] && lw[2] == lb[2] && lw[3] == lb[3]);
        assert(((v as u8) as u32) | ((((v >> 8u64) as u8) as u32) << 8u32) | ((((v >> 16u64) as u8)
            as u32) << 16u32) | ((((v >> 24u64) as u8) as u32) << 24u32) == v as u32) by (bit_vector);
    } else {
        assert(sub[0] == m[ai] && sub[1] == m[ai + 1] && sub[2] == m[ai + 2] && sub[3] == m[ai + 3]);
        assert(sub[4] == m[ai + 4] && sub[5] == m[ai + 5] && sub[6] == m[ai + 6] && sub[7] == m[ai
            + 7]);
        assert(p[0] == m[ai] && p[1] == m[ai + 1] && p[2] == m[ai + 2] && p[3] == m[ai + 3]);
        assert(p[4] == m[ai + 4] && p[5] == m[ai + 5] && p[6] == m[ai + 6] && p[7] == m[ai + 7]);
        let lw = le_bytes(v).subrange(0, 8);
        assert(lw[0] == lb[0] && lw[1] == lb[1] && lw[2] == lb[2] && lw[3] == lb[3]);
        assert(lw[4] == lb[4] && lw[5] == lb[5] && lw[6] == lb[6] && lw[7] == lb[7]);
        assert(((v as u8) as u64) | ((((v >> 8u64) as u8) as u64) << 8u64) | ((((v >> 16u64) as u8)
            as u64) << 16u64) | ((((v >> 24u64) as u8) as u64) << 24u64) | ((((v >> 32u64) as u8)
            as u64) << 32u64) | ((((v >> 40u64) as u8) as u64) << 40u64) | ((((v >> 48u64) as u8)
            as u64) << 48u64) | ((((v >> 56u64) as u8) as u64) << 56u64) == v) by (bit_vector);
    }
}

/// Copying in the first `w` little-endian bytes of `v` is a little-endian store.
proof fn lemma_store_prefix(m: Seq<u8>, a: int, w: int, v: u64)
    requires
        0 <= w <= 8,
    ensures
        store_bytes(m, a, le_bytes(v).subrange(0, w)) == store_le(m, a, w, v),
{
    assert(store_bytes(m, a, le_bytes(v).subrange(0, w)) =~= store_le(m, a, w, v));
}

/// Executes one AMO-major-opcode instruction through the versioned atomic
/// operations of the memory: each admitted instruction makes exactly one
/// atomic access, and rejections decided by the hart make none.
pub fn execute_amo_port(instr: &DecodedInstruction, state: &mut CoreState, mem: &mut SimpleMemory) -> (r:
    Result<(), ExecuteError>)
    requires
        instr.wf(),
    ensures
        amo_port_post(*instr, *old(state), *final(state), *old(mem), *final(mem), r),
{
    let decoded = match decode_amo(instr) {
        Ok(d) => d,
        Err(e) => return Err(e),
    };
    let ea = state.regs[decoded.rs1];
    let width = decoded.width;
    let span_width = width.physical_width();
    let n = width.bytes();
    proof {
        mem.lemma_versions_len();
    }
    match decoded.kind {
        AmoKind::LoadReserved => {
            let response = match mem.atomic_load_reserved(ea, n) {
                Ok(o) => o,
                Err(e) => return Err(ExecuteError::MemoryError(e)),
            };
            proof {
                lemma_span_values(mem@, ea, width, 0);
            }
            let value = old_value(width, &response.old_bytes);
            state.reservation = Some(ReservationSet::new(ea, span_width, Some(response.snapshot)));
            if decoded.rd != 0 {
                state.regs[decoded.rd] = value;
            }
            proof {
                assert(state.regs@ =~= reg_write(old(state).regs@, instr.rd->0, value));
            }
            Ok(())
        },
        AmoKind::StoreConditional => {
            if state.reservation.is_none() {
                if decoded.rd != 0 {
                    state.regs[decoded.rd] = 1;
                }
                proof {
                    assert(state.regs@ =~= reg_write(old(state).regs@, instr.rd->0, 1));
                }
                return Ok(());
            }
            if !contains_range(0, mem.size(), ea, n) {
                return Err(ExecuteError::MemoryError(MemoryError::InvalidAddress(ea)));
            }
            let reservation = match state.reservation.take() {
                Some(res) => res,
                None => {
                    return Ok(());
                },
            };
            if !reservation.covers(ea, span_width) {
                if decoded.rd != 0 {
                    state.regs[decoded.rd] = 1;
                }
                proof {
                    assert(state.regs@ =~= reg_write(old(state).regs@, instr.rd->0, 1));
                }
                return Ok(());
            }
            let snapshot = match reservation.snapshot {
                Some(s) => s,
                None => {
                    state.reservation = Some(reservation);
                    return Err(
                    ExecuteError::MemoryError(
                        MemoryError::Protocol(
                            "the reservation has no committed-write snapshot".to_string(),
                        ),
                    ),
                );
                },
            };
            let payload = le_prefix(state.regs[decoded.rs2], n);
            let status = match mem.atomic_store_conditional(
                ea,
                n,
                payload.as_slice(),
                reservation.reserved.paddr,
                reservation.reserved.width.bytes(),
                snapshot.as_slice(),
            ) {
                Ok(b) => b,
                Err(e) => {
                    state.reservation = Some(
                        ReservationSet { reserved: reservation.reserved, snapshot: Some(snapshot) },
                    );
                    return Err(ExecuteError::MemoryError(e));
                },
            };
            proof {
                lemma_store_prefix(old(mem)@, ea as int, n as int, old(state).regs@[instr.rs2->0 as int]);
            }
            let v: u64 = if status {
                0
            } else {
                1
            };
            if decoded.rd != 0 {
                state.regs[decoded.rd] = v;
            }
            proof {
                assert(state.regs@ =~= reg_write(old(state).regs@, instr.rd->0, v));
            }
            Ok(())
        },
        AmoKind::Rmw(operation) => {
            let operand = le_prefix(state.regs[decoded.rs2], n);
            let f = |old: &[u8], opnd: &[u8]| -> (out: [u8; 8])
                ensures
                    out@ == compute_spec(operation, width, old@, opnd@),
                { compute(operation, width, old, opnd) };
            let prior = match mem.atomic_rmw(ea, n, operand.as_slice(), f) {
                Ok(p) => p,
                Err(e) => return Err(ExecuteError::MemoryError(e)),
            };
            proof {
                let v = old(state).regs@[instr.rs2->0 as int];
                lemma_span_values(old(mem)@, ea, width, v);
                lemma_store_prefix(
                    old(mem)@,
                    ea as int,
                    n as int,
                    amo_value(operation, width, amo_old(old(mem)@, width, ea), v),
                );
            }
            let value = old_value(width, &prior);
            if decoded.rd != 0 {
                state.regs[decoded.rd] = value;
            }
            proof {
                assert(state.regs@ =~= reg_write(old(state).regs@, instr.rd->0, value));
            }
            Ok(())
        },
    }
}

/// An LR of a span, a committed write of `[wa, wa + wlen)` to memory, and an
/// SC of the same width at the same address.  The SC's outcome is decided by
/// whether the write overlapped the reserved span.
pub open spec fn lr_write_sc(
    lr: DecodedInstruction,
    sc: DecodedInstruction,
    s0: CoreState,
    m0: SimpleMemory,
    s1: CoreState,
    m1: SimpleMemory,
    m2: SimpleMemory,
    s3: CoreState,
    m3: SimpleMemory,
    r1: Result<(), ExecuteError>,
    r3: Result<(), ExecuteError>,
) -> bool {
    &&& decode_amo_spec(lr) matches Ok(dl)
    &&& decode_amo_spec(sc) matches Ok(ds)
    &&& dl.kind == AmoKind::LoadReserved
    &&& ds.kind == AmoKind::StoreConditional
    &&& dl.width == ds.width
    &&& s1.regs@[sc.rs1->0 as int] == s0.regs@[lr.rs1->0 as int]
    &&& amo_port_post(lr, s0, s1, m0, m1, r1)
    &&& r1 is Ok
    &&& m2@.len() == m1@.len()
    &&& amo_port_post(sc, s1, s3, m2, m3, r3)
}

/// A store-conditional right after a load-reserved of the same span, with
/// no write in between, succeeds: it stores `rs2`, retires `rd = 0`, and
/// consumes the reservation.
pub proof fn lemma_lr_then_sc_succeeds(
    lr: DecodedInstruction,
    sc: DecodedInstruction,
    s0: CoreState,
    m0: SimpleMemory,
    s1: CoreState,
    m1: SimpleMemory,
    s2: CoreState,
    m2: SimpleMemory,
    r1: Result<(), ExecuteError>,
    r2: Result<(), ExecuteError>,
)
    requires
        lr_write_sc(lr, sc, s0, m0, s1, m1, m1, s2, m2, r1, r2),
    ensures
        r2 is Ok,
        m2@ == store_le(
            m1@,
            s1.regs@[sc.rs1->0 as int] as int,
            amo_width_bytes(decode_amo_spec(sc)->Ok_0.width) as int,
            s1.regs@[sc.rs2->0 as int],
        ),
        s2.regs@ == reg_write(s1.regs@, sc.rd->0, 0),
        s2.reservation is None,
{
    m0.lemma_versions_len();
}

/// A committed write that covers none of the reserved span between a
/// load-reserved and a store-conditional of that span does not make the
/// store-conditional fail.
pub proof fn lemma_lr_disjoint_write_sc_succeeds(
    lr: DecodedInstruction,
    sc: DecodedInstruction,
    s0: CoreState,
    m0: SimpleMemory,
    s1: CoreState,
    m1: SimpleMemory,
    m2: SimpleMemory,
    s3: CoreState,
    m3: SimpleMemory,
    r1: Result<(), ExecuteError>,
    r3: Result<(), ExecuteError>,
    wa: int,
    wlen: int,
)
    requires
        lr_write_sc(lr, sc, s0, m0, s1, m1, m2, s3, m3, r1, r3),
        committed_write(m1, m2, wa, wlen),
        ({
            let a = s0.regs@[lr.rs1->0 as int];
            let w = amo_width_bytes(decode_amo_spec(lr)->Ok_0.width);
            wa + wlen <= a || a + w <= wa
        }),
    ensures
        r3 is Ok,
        m3@ == store_le(
            m2@,
            s1.regs@[sc.rs1->0 as int] as int,
            amo_width_bytes(decode_amo_spec(sc)->Ok_0.width) as int,
            s1.regs@[sc.rs2->0 as int],
        ),
        s3.regs@ == reg_write(s1.regs@, sc.rd->0, 0),
{
    m0.lemma_versions_len();
    m1.lemma_versions_len();
    let a = s0.regs@[lr.rs1->0 as int];
    let w = amo_width_bytes(decode_amo_spec(lr)->Ok_0.width);
    lemma_disjoint_write_keeps_snapshot(m1, m2, wa, wlen, a as int, w as int);
}

/// A committed write that covers a byte of the reserved span between a
/// load-reserved and a store-conditional of that span makes the
/// store-conditional fail: it retires `rd = 1` and writes nothing (as long
/// as the version clock has not wrapped).
pub proof fn lemma_lr_overlapping_write_sc_fails(
    lr: DecodedInstruction,
    sc: DecodedInstruction,
    s0: CoreState,
    m0: SimpleMemory,
    s1: CoreState,
    m1: SimpleMemory,
    m2: SimpleMemory,
    s3: CoreState,
    m3: SimpleMemory,
    r1: Result<(), ExecuteError>,
    r3: Result<(), ExecuteError>,
    wa: int,
    wlen: int,
)
    requires
        lr_write_sc(lr, sc, s0, m0, s1, m1, m2, s3, m3, r1, r3),
        versions_bounded(m1),
        m1.clock() < u64::MAX,
        committed_write(m1, m2, wa, wlen),
        wlen > 0,
        ({
            let a = s0.regs@[lr.rs1->0 as int];
            let w = amo_width_bytes(decode_amo_spec(lr)->Ok_0.width);
            wa < a + w && a < wa + wlen
        }),
    ensures
        r3 is Ok,
        m3 == m2,
        s3.regs@ == reg_write(s1.regs@, sc.rd->0, 1),
{
    m0.lemma_versions_len();
    m1.lemma_versions_len();
    let a = s0.regs@[lr.rs1->0 as int];
    let w = amo_width_bytes(decode_amo_spec(lr)->Ok_0.width);
    lemma_overlapping_write_breaks_snapshot(m1, m2, wa, wlen, a as int, w as int);
}


/// Between a load-reserved and a store-conditional of the same span, any
/// run of committed writes (the version clock not wrapping): the
/// store-conditional succeeds (stores `rs2` and retires `rd = 0`) exactly
/// when no write of the run covered a byte of the reserved span, and
/// otherwise fails (retires `rd = 1` and writes nothing).
pub proof fn lemma_lr_writes_sc(
    lr: DecodedInstruction,
    sc: DecodedInstruction,
    s0: CoreState,
    m0: SimpleMemory,
    s1: CoreState,
    m1: SimpleMemory,
    ms: Seq<SimpleMemory>,
    spans: Seq<(int, int)>,
    s3: CoreState,
    m3: SimpleMemory,
    r1: Result<(), ExecuteError>,
    r3: Result<(), ExecuteError>,
)
    requires
        committed_run(ms, spans),
        ms[0] == m1,
        lr_write_sc(lr, sc, s0, m0, s1, m1, ms.last(), s3, m3, r1, r3),
        versions_bounded(m1),
        m1.clock() + spans.len() <= u64::MAX,
    ensures
        r3 is Ok,
        ({
            let a = s0.regs@[lr.rs1->0 as int];
            let w = amo_width_bytes(decode_amo_spec(lr)->Ok_0.width);
            if forall|i: int| 0 <= i < spans.len() ==> !#[trigger] touches(spans[i], a as int, w as int) {
                &&& m3@ == store_le(
                    ms.last()@,
                    s1.regs@[sc.rs1->0 as int] as int,
                    amo_width_bytes(decode_amo_spec(sc)->Ok_0.width) as int,
                    s1.regs@[sc.rs2->0 as int],
                )
                &&& s3.regs@ == reg_write(s1.regs@, sc.rd->0, 0)
            } else {
                &&& m3 == ms.last()
                &&& s3.regs@ == reg_write(s1.regs@, sc.rd->0, 1)
            }
        }),
{
    m0.lemma_versions_len();
    m1.lemma_versions_len();
    let a = s0.regs@[lr.rs1->0 as int];
    let w = amo_width_bytes(decode_amo_spec(lr)->Ok_0.width);
    lemma_run_keeps_snapshot_iff_untouched(ms, spans, a as int, w as int);
}

} // verus!
