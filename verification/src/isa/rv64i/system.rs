//! RV64I system instructions: ECALL, EBREAK, the CSR instructions, MRET,
//! SRET and URET.
use vstd::prelude::*;
use crate::cpu::{CoreState, PrivilegeMode, reg_write};
use crate::csr::{CsrError, csr_read_spec, csr_write_check, machine, supervisor};
use crate::decode::DecodedInstruction;
use crate::execute::ExecuteError;
use crate::arith::lemma_word_bits;
use crate::hart_amods::bit64;
use crate::memory::SimpleMemory;

verus! {

/// The mstatus value MRET leaves: MIE takes MPIE, and MPP is cleared.
pub open spec fn mret_status(m: u64) -> u64 {
    ((m & !8u64) | (((m >> 7u64) & 1) << 3u64)) & !(3u64 << 11u64)
}

/// The privilege level MRET returns to, from mstatus.MPP.
pub open spec fn mret_privilege(m: u64) -> PrivilegeMode {
    let mpp = (m >> 11u64) & 3;
    if mpp == 0 {
        PrivilegeMode::User
    } else if mpp == 1 {
        PrivilegeMode::Supervisor
    } else {
        PrivilegeMode::Machine
    }
}

/// The sstatus value SRET leaves: SIE takes SPIE, and SPP is cleared.
pub open spec fn sret_status(s: u64) -> u64 {
    ((s & !2u64) | (((s >> 5u64) & 1) << 1u64)) & !(1u64 << 8u64)
}

/// The privilege level SRET returns to, from sstatus.SPP.
pub open spec fn sret_privilege(s: u64) -> PrivilegeMode {
    if (s >> 8u64) & 1 == 1 {
        PrivilegeMode::Supervisor
    } else {
        PrivilegeMode::User
    }
}

proof fn lemma_status_bits(m: u64, x: u64, i: u64)
    by (bit_vector)
    requires
        i < 64,
    ensures
        i == 3 ==> (((((m & !8u64) | (((m >> 7u64) & 1) << 3u64)) & !(3u64 << 11u64)) >> i) & 1 == 1) == ((m >> 7u64) & 1 == 1),
        i == 11 || i == 12 ==> (((((m & !8u64) | (((m >> 7u64) & 1) << 3u64)) & !(3u64 << 11u64)) >> i) & 1 == 1) == false,
        i != 3 && i != 11 && i != 12 ==> (((((m & !8u64) | (((m >> 7u64) & 1) << 3u64)) & !(3u64 << 11u64)) >> i) & 1 == 1) == ((m >> i) & 1 == 1),
        i == 1 ==> (((((x & !2u64) | (((x >> 5u64) & 1) << 1u64)) & !(1u64 << 8u64)) >> i) & 1 == 1) == ((x >> 5u64) & 1 == 1),
        i == 8 ==> (((((x & !2u64) | (((x >> 5u64) & 1) << 1u64)) & !(1u64 << 8u64)) >> i) & 1 == 1) == false,
        i != 1 && i != 8 ==> (((((x & !2u64) | (((x >> 5u64) & 1) << 1u64)) & !(1u64 << 8u64)) >> i) & 1 == 1) == ((x >> i) & 1 == 1),
{
}

/// MRET leaves mstatus with MIE (bit 3) set to the old MPIE (bit 7), MPP
/// (bits 12:11) cleared and every other bit as it was; SRET leaves sstatus
/// with SIE (bit 1) set to the old SPIE (bit 5), SPP (bit 8) cleared and
/// every other bit as it was.
pub proof fn lemma_trap_return_status(m: u64, s: u64, i: u64)
    requires
        i < 64,
    ensures
        bit64(mret_status(m), i) == if i == 3 {
            bit64(m, 7)
        } else if i == 11 || i == 12 {
            false
        } else {
            bit64(m, i)
        },
        bit64(sret_status(s), i) == if i == 1 {
            bit64(s, 5)
        } else if i == 8 {
            false
        } else {
            bit64(s, i)
        },
{
    lemma_status_bits(m, s, i);
}

/// The result of MRET on a state: the new pc (mepc), or the CSR error.
pub open spec fn mret_ok(s: CoreState) -> bool {
    &&& csr_read_spec(s.csr@, machine::MSTATUS) is Ok
    &&& csr_read_spec(s.csr@, machine::MEPC) is Ok
    &&& csr_write_check(s.csr@, machine::MSTATUS) is Ok
}

/// Executes MRET and returns mepc (the caller moves the pc there).
/// mstatus.MIE takes MPIE, MPP is cleared and the privilege level becomes
/// the one MPP named.
pub fn exec_mret(_instr: &DecodedInstruction, state: &mut CoreState, _mem: &mut SimpleMemory) -> (r:
    Result<u64, ExecuteError>)
    ensures
        *final(_mem) == *old(_mem),
        final(state).regs == old(state).regs,
        final(state).pc == old(state).pc,
        final(state).branch_taken == old(state).branch_taken,
        final(state).reservation == old(state).reservation,
        final(state).fpr == old(state).fpr,
        final(state).fcsr == old(state).fcsr,
        mret_ok(*old(state)) ==> {
            let m = old(state).csr@[machine::MSTATUS as int];
            &&& r == Ok::<u64, ExecuteError>(old(state).csr@[machine::MEPC as int])
            &&& final(state).csr@ == old(state).csr@.update(machine::MSTATUS as int, mret_status(m))
            &&& final(state).privilege == mret_privilege(m)
        },
        !mret_ok(*old(state)) ==> (r matches Err(ExecuteError::CsrError(_))) && final(state).csr
            == old(state).csr && final(state).privilege == old(state).privilege,
{
    let mstatus = match state.csr.read(machine::MSTATUS) {
        Ok(v) => v,
        Err(e) => return Err(ExecuteError::CsrError(e)),
    };
    let mpie = (mstatus >> 7) & 1;
    let mpp = (mstatus >> 11) & 0b11;
    let mepc = match state.csr.read(machine::MEPC) {
        Ok(v) => v,
        Err(e) => return Err(ExecuteError::CsrError(e)),
    };
    let new_mstatus = ((mstatus & !0x8u64) | (mpie << 3)) & !(0b11u64 << 11);
    match state.csr.write(machine::MSTATUS, new_mstatus) {
        Ok(()) => {},
        Err(e) => return Err(ExecuteError::CsrError(e)),
    }
    state.privilege = if mpp == 0 {
        PrivilegeMode::User
    } else if mpp == 1 {
        PrivilegeMode::Supervisor
    } else {
        PrivilegeMode::Machine
    };
    Ok(mepc)
}

/// Whether SRET's CSR accesses succeed on a state.
pub open spec fn sret_ok(s: CoreState) -> bool {
    &&& csr_read_spec(s.csr@, supervisor::SSTATUS) is Ok
    &&& csr_read_spec(s.csr@, supervisor::SEPC) is Ok
    &&& csr_write_check(s.csr@, supervisor::SSTATUS) is Ok
}

/// Executes SRET and returns sepc; from user mode it fails with
/// `InvalidOperation`.  sstatus.SIE takes SPIE, SPP is cleared and the
/// privilege level becomes the one SPP named.
pub fn exec_sret(_instr: &DecodedInstruction, state: &mut CoreState, _mem: &mut SimpleMemory) -> (r:
    Result<u64, ExecuteError>)
    ensures
        *final(_mem) == *old(_mem),
        final(state).regs == old(state).regs,
        final(state).pc == old(state).pc,
        final(state).branch_taken == old(state).branch_taken,
        final(state).reservation == old(state).reservation,
        final(state).fpr == old(state).fpr,
        final(state).fcsr == old(state).fcsr,
        old(state).privilege == PrivilegeMode::User ==> r == Err::<u64, ExecuteError>(
            ExecuteError::InvalidOperation,
        ) && *final(state) == *old(state),
        old(state).privilege != PrivilegeMode::User && sret_ok(*old(state)) ==> {
            let s = old(state).csr@[supervisor::SSTATUS as int];
            &&& r == Ok::<u64, ExecuteError>(old(state).csr@[supervisor::SEPC as int])
            &&& final(state).csr@ == old(state).csr@.update(
                supervisor::SSTATUS as int,
                sret_status(s),
            )
            &&& final(state).privilege == sret_privilege(s)
        },
        old(state).privilege != PrivilegeMode::User && !sret_ok(*old(state)) ==> (r matches Err(
            ExecuteError::CsrError(_),
        )) && final(state).csr == old(state).csr && final(state).privilege == old(state).privilege,
{
    if state.privilege == PrivilegeMode::User {
        return Err(ExecuteError::InvalidOperation);
    }
    let sstatus = match state.csr.read(supervisor::SSTATUS) {
        Ok(v) => v,
        Err(e) => return Err(ExecuteError::CsrError(e)),
    };
    let spie = (sstatus >> 5) & 1;
    let spp = (sstatus >> 8) & 1;
    let sepc = match state.csr.read(supervisor::SEPC) {
        Ok(v) => v,
        Err(e) => return Err(ExecuteError::CsrError(e)),
    };
    let new_sstatus = ((sstatus & !0x2u64) | (spie << 1)) & !(1u64 << 8);
    match state.csr.write(supervisor::SSTATUS, new_sstatus) {
        Ok(()) => {},
        Err(e) => return Err(ExecuteError::CsrError(e)),
    }
    state.privilege = if spp == 1 {
        PrivilegeMode::Supervisor
    } else {
        PrivilegeMode::User
    };
    Ok(sepc)
}

/// URET is not part of the privileged architecture: it always fails.
pub fn exec_uret(_instr: &DecodedInstruction, _state: &mut CoreState, _mem: &mut SimpleMemory) -> (r:
    Result<u64, ExecuteError>)
    ensures
        r == Err::<u64, ExecuteError>(ExecuteError::InvalidOperation),
        *final(_state) == *old(_state),
        *final(_mem) == *old(_mem),
{
    Err(ExecuteError::InvalidOperation)
}

/// The kind of CSR update: write, set bits or clear bits.
#[derive(Debug, Clone, Copy, PartialEq, Eq, Structural)]
pub enum CsrOp {
    Write,
    SetBits,
    ClearBits,
}

/// The CSR file after a CSR instruction of kind `op` with operand `v`,
/// and the old value it returns.
pub open spec fn csr_op_spec(regs: Seq<u64>, op: CsrOp, addr: u16, v: u64) -> Result<
    (u64, Seq<u64>),
    CsrError,
> {
    let writes = op == CsrOp::Write || v != 0;
    if !writes {
        match csr_read_spec(regs, addr) {
            Ok(old) => Ok((old, regs)),
            Err(e) => Err(e),
        }
    } else {
        match csr_write_check(regs, addr) {
            Ok(()) => {
                let old = regs[addr as int];
                let new = match op {
                    CsrOp::Write => v,
                    CsrOp::SetBits => old | v,
                    CsrOp::ClearBits => old & !v,
                };
                Ok((old, regs.update(addr as int, new)))
            },
            Err(e) => Err(e),
        }
    }
}

/// A CSR instruction that writes (CSRRW always, CSRRS and CSRRC with a
/// nonzero operand) returns the old value and changes only the addressed
/// CSR, bit by bit: CSRRW gives each bit `i` the operand's bit, CSRRS sets
/// the bits set in the operand, CSRRC clears them, and every other bit
/// keeps its value.  CSRRS and CSRRC with a zero operand change no CSR.
pub proof fn lemma_csr_update_bits(regs: Seq<u64>, op: CsrOp, addr: u16, v: u64, i: u64)
    requires
        i < 64,
    ensures
        csr_op_spec(regs, op, addr, v) matches Ok((prev, new_regs)) ==> (op != CsrOp::Write && v
            == 0 ==> new_regs == regs),
        (addr as int) < regs.len() ==> (csr_op_spec(regs, op, addr, v) matches Ok((prev, new_regs))
            ==> (op == CsrOp::Write || v != 0 ==> prev == regs[addr as int] && new_regs.len()
            == regs.len() && (forall|j: int| 0 <= j < regs.len() && j != addr ==> new_regs[j]
            == regs[j]) && bit64(new_regs[addr as int], i) == match op {
                CsrOp::Write => bit64(v, i),
                CsrOp::SetBits => bit64(regs[addr as int], i) || bit64(v, i),
                CsrOp::ClearBits => bit64(regs[addr as int], i) && !bit64(v, i),
            })),
{
    lemma_word_bits(regs[addr as int], 0, v, i);
}

/// One CSR instruction: `rd` receives the old value; the CSR is written
/// with `v` (CSRRW), or has the bits of `v` set (CSRRS) or cleared (CSRRC).
fn exec_csr(state: &mut CoreState, rd: u8, addr: u16, v: u64, op: CsrOp) -> (r: Result<(), ExecuteError>)
    requires
        rd < 32,
    ensures
        final(state).pc == old(state).pc,
        final(state).branch_taken == old(state).branch_taken,
        final(state).reservation == old(state).reservation,
        final(state).fpr == old(state).fpr,
        final(state).fcsr == old(state).fcsr,
        final(state).privilege == old(state).privilege,
        match csr_op_spec(old(state).csr@, op, addr, v) {
            Ok((old_value, regs)) => r is Ok && final(state).csr@ == regs && final(state).regs@
                == reg_write(old(state).regs@, rd, old_value),
            Err(e) => r == Err::<(), ExecuteError>(ExecuteError::CsrError(e)) && final(state).csr
                == old(state).csr && final(state).regs == old(state).regs,
        },
{
    let res = match op {
        CsrOp::Write => state.csr.read_write(addr, v),
        CsrOp::SetBits => state.csr.read_set(addr, v),
        CsrOp::ClearBits => state.csr.read_clear(addr, v),
    };
    let old_value = match res {
        Ok(v) => v,
        Err(e) => return Err(ExecuteError::CsrError(e)),
    };
    state.write_reg(rd, old_value);
    Ok(())
}

/// What MRET as an instruction does: on success the pc moves to mepc with
/// the control-flow flag set, mstatus and the privilege level change as
/// `exec_mret` describes, and nothing else changes; a failed CSR access
/// changes nothing.
pub open spec fn mret_effect(s0: CoreState, s1: CoreState, r: Result<(), ExecuteError>) -> bool {
    if mret_ok(s0) {
        let m = s0.csr@[machine::MSTATUS as int];
        &&& r is Ok
        &&& s1.pc == s0.csr@[machine::MEPC as int]
        &&& s1.branch_taken
        &&& s1.csr@ == s0.csr@.update(machine::MSTATUS as int, mret_status(m))
        &&& s1.privilege == mret_privilege(m)
        &&& s1.regs == s0.regs
        &&& s1.fpr == s0.fpr
        &&& s1.fcsr == s0.fcsr
        &&& s1.reservation == s0.reservation
    } else {
        (r matches Err(ExecuteError::CsrError(_))) && s1 == s0
    }
}

/// What SRET as an instruction does: from user mode it is an invalid
/// operation; otherwise as MRET, with sepc, sstatus and `exec_sret`'s
/// privilege rule.
pub open spec fn sret_effect(s0: CoreState, s1: CoreState, r: Result<(), ExecuteError>) -> bool {
    if s0.privilege == PrivilegeMode::User {
        r == Err::<(), ExecuteError>(ExecuteError::InvalidOperation) && s1 == s0
    } else if sret_ok(s0) {
        let st = s0.csr@[supervisor::SSTATUS as int];
        &&& r is Ok
        &&& s1.pc == s0.csr@[supervisor::SEPC as int]
        &&& s1.branch_taken
        &&& s1.csr@ == s0.csr@.update(supervisor::SSTATUS as int, sret_status(st))
        &&& s1.privilege == sret_privilege(st)
        &&& s1.regs == s0.regs
        &&& s1.fpr == s0.fpr
        &&& s1.fcsr == s0.fcsr
        &&& s1.reservation == s0.reservation
    } else {
        (r matches Err(ExecuteError::CsrError(_))) && s1 == s0
    }
}

/// What `exec_system` leaves in the state and the memory, and what it returns.
pub open spec fn system_post(
    instr: DecodedInstruction,
    s0: CoreState,
    s1: CoreState,
    m0: SimpleMemory,
    m1: SimpleMemory,
    r: Result<(), ExecuteError>,
) -> bool {
    &&& m1 == m0
    &&& instr.imm is None ==> r == Err::<(), ExecuteError>(ExecuteError::InvalidOperation)
        && s1 == s0
    &&& instr.imm is Some && (instr.raw >> 12u32) & 7 == 0 && instr.imm->0 == 0 ==> r == Err::<
        (),
        ExecuteError,
    >(ExecuteError::Ecall) && s1 == s0
    &&& instr.imm is Some && (instr.raw >> 12u32) & 7 == 0 && instr.imm->0 == 1 ==> r == Err::<
        (),
        ExecuteError,
    >(ExecuteError::Ebreak) && s1 == s0
    &&& instr.imm is Some && (instr.raw >> 12u32) & 7 == 0 && instr.imm->0 == 0x302 ==> mret_effect(
        s0,
        s1,
        r,
    )
    &&& instr.imm is Some && (instr.raw >> 12u32) & 7 == 0 && instr.imm->0 == 0x102 ==> sret_effect(
        s0,
        s1,
        r,
    )
    &&& instr.imm is Some && (instr.raw >> 12u32) & 7 == 0 && instr.imm->0 != 0 && instr.imm->0 != 1
        && instr.imm->0 != 0x102 && instr.imm->0 != 0x302 ==> r == Err::<(), ExecuteError>(
        ExecuteError::InvalidOperation,
    ) && s1 == s0
    &&& instr.imm is Some && (instr.raw >> 12u32) & 7 == 4 ==> r == Err::<
        (),
        ExecuteError,
    >(ExecuteError::InvalidOperation) && s1 == s0
    &&& instr.imm is Some && (instr.raw >> 12u32) & 7 != 0 && (instr.raw >> 12u32) & 7 != 4
        ==> csr_instr_effect(
        instr,
        s0,
        s1,
        r,
        csr_op_of((instr.raw >> 12u32) & 7),
        (instr.raw >> 12u32) & 7 >= 4,
    )
}

/// The CSR update a CSR instruction's `funct3` selects: write (1, 5), set
/// bits (2, 6) or clear bits (3, 7).
pub open spec fn csr_op_of(f: u32) -> CsrOp {
    if f & 3 == 1 {
        CsrOp::Write
    } else if f & 3 == 2 {
        CsrOp::SetBits
    } else {
        CsrOp::ClearBits
    }
}

/// What a CSR instruction of kind `op` does: its CSR (the low 12 bits of
/// the immediate) is updated with the value of `rs1`, or with the 5-bit
/// `rs1` field itself for the `immediate` forms, and `rd` receives the old
/// value; a failed CSR access, or a missing register field, changes nothing.
pub open spec fn csr_instr_effect(
    instr: DecodedInstruction,
    s0: CoreState,
    s1: CoreState,
    r: Result<(), ExecuteError>,
    op: CsrOp,
    immediate: bool,
) -> bool {
    match (instr.rs1, instr.rd) {
        (Some(rs1), Some(rd)) => {
            let v = if immediate {
                rs1 as u64
            } else {
                s0.regs@[rs1 as int]
            };
            match csr_op_spec(s0.csr@, op, (instr.imm->0 & 0xFFF) as u16, v) {
                Ok((old_value, regs)) => r is Ok && s1.csr@ == regs && s1.regs@ == reg_write(
                    s0.regs@,
                    rd,
                    old_value,
                ) && s1.pc == s0.pc && s1.branch_taken == s0.branch_taken && s1.reservation
                    == s0.reservation && s1.fpr == s0.fpr && s1.fcsr == s0.fcsr && s1.privilege
                    == s0.privilege,
                Err(e) => r == Err::<(), ExecuteError>(ExecuteError::CsrError(e)) && s1 == s0,
            }
        },
        _ => r == Err::<(), ExecuteError>(ExecuteError::InvalidOperation) && s1 == s0,
    }
}

/// Runs a CSR instruction of kind `op` with the register or immediate operand.
fn exec_csr_instr(instr: &DecodedInstruction, state: &mut CoreState, imm: u32, op: CsrOp, immediate: bool) -> (r:
    Result<(), ExecuteError>)
    requires
        instr.wf(),
        instr.imm == Some(imm),
    ensures
        csr_instr_effect(*instr, *old(state), *final(state), r, op, immediate),
{
    let (rs1, rd) = match (instr.rs1, instr.rd) {
        (Some(rs1), Some(rd)) => (rs1, rd),
        _ => return Err(ExecuteError::InvalidOperation),
    };
    let addr = (imm & 0xFFF) as u16;
    let v = if immediate {
        rs1 as u64
    } else {
        state.regs[rs1 as usize]
    };
    exec_csr(state, rd, addr, v, op)
}

/// CSRRW: the CSR takes `rs1`'s value; `rd` receives the old value.
fn exec_csrrw(instr: &DecodedInstruction, state: &mut CoreState, imm: u32) -> (r: Result<(), ExecuteError>)
    requires
        instr.wf(),
        instr.imm == Some(imm),
    ensures
        csr_instr_effect(*instr, *old(state), *final(state), r, CsrOp::Write, false),
{
    exec_csr_instr(instr, state, imm, CsrOp::Write, false)
}

/// CSRRS: the bits of `rs1`'s value are set in the CSR; `rd` receives the old value.
fn exec_csrrs(instr: &DecodedInstruction, state: &mut CoreState, imm: u32) -> (r: Result<(), ExecuteError>)
    requires
        instr.wf(),
        instr.imm == Some(imm),
    ensures
        csr_instr_effect(*instr, *old(state), *final(state), r, CsrOp::SetBits, false),
{
    exec_csr_instr(instr, state, imm, CsrOp::SetBits, false)
}

/// CSRRC: the bits of `rs1`'s value are cleared in the CSR; `rd` receives the old value.
fn exec_csrrc(instr: &DecodedInstruction, state: &mut CoreState, imm: u32) -> (r: Result<(), ExecuteError>)
    requires
        instr.wf(),
        instr.imm == Some(imm),
    ensures
        csr_instr_effect(*instr, *old(state), *final(state), r, CsrOp::ClearBits, false),
{
    exec_csr_instr(instr, state, imm, CsrOp::ClearBits, false)
}

/// CSRRWI: the CSR takes the 5-bit immediate; `rd` receives the old value.
fn exec_csrrwi(instr: &DecodedInstruction, state: &mut CoreState, imm: u32) -> (r: Result<(), ExecuteError>)
    requires
        instr.wf(),
        instr.imm == Some(imm),
    ensures
        csr_instr_effect(*instr, *old(state), *final(state), r, CsrOp::Write, true),
{
    exec_csr_instr(instr, state, imm, CsrOp::Write, true)
}

/// CSRRSI: the bits of the 5-bit immediate are set in the CSR; `rd` receives the old value.
fn exec_csrrsi(instr: &DecodedInstruction, state: &mut CoreState, imm: u32) -> (r: Result<(), ExecuteError>)
    requires
        instr.wf(),
        instr.imm == Some(imm),
    ensures
        csr_instr_effect(*instr, *old(state), *final(state), r, CsrOp::SetBits, true),
{
    exec_csr_instr(instr, state, imm, CsrOp::SetBits, true)
}

/// CSRRCI: the bits of the 5-bit immediate are cleared in the CSR; `rd` receives the old value.
fn exec_csrrci(instr: &DecodedInstruction, state: &mut CoreState, imm: u32) -> (r: Result<(), ExecuteError>)
    requires
        instr.wf(),
        instr.imm == Some(imm),
    ensures
        csr_instr_effect(*instr, *old(state), *final(state), r, CsrOp::ClearBits, true),
{
    exec_csr_instr(instr, state, imm, CsrOp::ClearBits, true)
}

/// Executes a SYSTEM instruction.  With `funct3` 0 the immediate selects
/// ECALL (0), EBREAK (1), SRET (0x102) or MRET (0x302); SRET and MRET move
/// the pc to the returned address and set `branch_taken`.  `funct3` 1, 2,
/// 3 are CSRRW/CSRRS/CSRRC with register `rs1`, and 5, 6, 7 the immediate
/// forms with the 5-bit `rs1` field as the operand.
pub fn exec_system(instr: &DecodedInstruction, state: &mut CoreState, mem: &mut SimpleMemory) -> (r:
    Result<(), ExecuteError>)
    requires
        instr.wf(),
    ensures
        system_post(*instr, *old(state), *final(state), *old(mem), *final(mem), r),
{
    let imm = match instr.imm {
        Some(imm) => imm,
        None => return Err(ExecuteError::InvalidOperation),
    };
    let raw = instr.raw;
    let funct3 = (raw >> 12) & 0b111;
    if funct3 == 0 {
        if imm == 0 {
            return Err(ExecuteError::Ecall);
        } else if imm == 1 {
            return Err(ExecuteError::Ebreak);
        } else if imm == 0x302 {
            let target = match exec_mret(instr, state, mem) {
                Ok(t) => t,
                Err(e) => return Err(e),
            };
            state.pc = target;
            state.branch_taken = true;
            return Ok(());
        } else if imm == 0x102 {
            let target = match exec_sret(instr, state, mem) {
                Ok(t) => t,
                Err(e) => return Err(e),
            };
            state.pc = target;
            state.branch_taken = true;
            return Ok(());
        } else {
            return Err(ExecuteError::InvalidOperation);
        }
    }
    assert({
        &&& funct3 < 8
        &&& funct3 == 1 ==> funct3 & 3 == 1
        &&& funct3 == 2 ==> funct3 & 3 == 2
        &&& funct3 == 3 ==> funct3 & 3 == 3
        &&& funct3 == 5 ==> funct3 & 3 == 1
        &&& funct3 == 6 ==> funct3 & 3 == 2
        &&& funct3 == 7 ==> funct3 & 3 == 3
    }) by (bit_vector)
        requires
            funct3 == (raw >> 12u32) & 7,
    ;
    if funct3 == 1 {
        exec_csrrw(instr, state, imm)
    } else if funct3 == 2 {
        exec_csrrs(instr, state, imm)
    } else if funct3 == 3 {
        exec_csrrc(instr, state, imm)
    } else if funct3 == 5 {
        exec_csrrwi(instr, state, imm)
    } else if funct3 == 6 {
        exec_csrrsi(instr, state, imm)
    } else if funct3 == 7 {
        exec_csrrci(instr, state, imm)
    } else {
        Err(ExecuteError::InvalidOperation)
    }
}

} // verus!
