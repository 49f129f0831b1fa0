//! Architectural state of one hart.
use vstd::prelude::*;
use crate::csr::CsrFile;
use crate::fpu::{Fcsr, FpuRegisterFile};
use crate::isa::rv64a::lr_sc::ReservationSet;
use crate::decode::{DecodeError, DecodedInstruction, InstructionDecoder, Opcode, decode_spec, lemma_decode_wf};
use crate::execute::{ExecuteError, Executor, execute_post, lemma_execute_keeps_x0};
use crate::isa::rv64c::decoder_16bit::{compressed, decode_16bit_spec, expand_spec};
use crate::isa::rv64c::execute_compressed;
use crate::memory::{MemoryError, MemoryInterface, SimpleMemory, access_check, checked, le16};

verus! {

/// Privilege levels.
#[derive(Debug, Clone, Copy, PartialEq, Eq, Structural)]
pub enum PrivilegeMode {
    User,
    Supervisor,
    Machine,
}

/// The two-bit encoding of a privilege level (User 0, Supervisor 1, Machine 3).
pub open spec fn privilege_bits(p: PrivilegeMode) -> u8 {
    match p {
        PrivilegeMode::User => 0,
        PrivilegeMode::Supervisor => 1,
        PrivilegeMode::Machine => 3,
    }
}

impl PrivilegeMode {
    /// The two-bit encoding of this level.
    pub fn bits(self) -> (r: u8)
        ensures
            r == privilege_bits(self),
    {
        match self {
            PrivilegeMode::User => 0,
            PrivilegeMode::Supervisor => 1,
            PrivilegeMode::Machine => 3,
        }
    }
}

/// The architectural state of one hart.
#[derive(Debug, Clone)]
pub struct CoreState {
    /// The program counter.
    pub pc: u64,
    /// The integer registers x0..x31.
    pub regs: [u64; 32],
    /// The floating-point registers.
    pub fpr: FpuRegisterFile,
    /// The floating-point control and status register.
    pub fcsr: Fcsr,
    /// The control and status registers.
    pub csr: CsrFile,
    /// The current privilege level.
    pub privilege: PrivilegeMode,
    /// Set when the last instruction redirected control flow.
    pub branch_taken: bool,
    /// This hart's load-reserved reservation, if any.
    pub reservation: Option<ReservationSet>,
}

/// `regs` after writing `v` to `rd`; writes to x0 are discarded.
pub open spec fn reg_write(regs: Seq<u64>, rd: u8, v: u64) -> Seq<u64> {
    if rd == 0 {
        regs
    } else {
        regs.update(rd as int, v)
    }
}

/// `b` equals `a` in every field other than the integer registers.
pub open spec fn same_but_regs(a: CoreState, b: CoreState) -> bool {
    &&& a.pc == b.pc
    &&& a.fpr == b.fpr
    &&& a.fcsr == b.fcsr
    &&& a.csr == b.csr
    &&& a.privilege == b.privilege
    &&& a.branch_taken == b.branch_taken
    &&& a.reservation == b.reservation
}

/// `b` equals `a` in every field other than the integer registers, the pc
/// and the control-flow flag.
pub open spec fn same_but_regs_pc(a: CoreState, b: CoreState) -> bool {
    &&& a.fpr == b.fpr
    &&& a.fcsr == b.fcsr
    &&& a.csr == b.csr
    &&& a.privilege == b.privilege
    &&& a.reservation == b.reservation
}

impl CoreState {
    /// Writes `v` to register `rd`, unless `rd` is x0.
    pub fn write_reg(&mut self, rd: u8, v: u64)
        requires
            rd < 32,
        ensures
            final(self).regs@ == reg_write(old(self).regs@, rd, v),
            same_but_regs(*old(self), *final(self)),
    {
        if rd != 0 {
            self.regs[rd as usize] = v;
        }
        assert(self.regs@ =~= reg_write(old(self).regs@, rd, v));
    }
}

impl Default for CoreState {
    /// Reset state: pc 0, all integer registers 0, machine mode, no reservation.
    fn default() -> (r: Self)
        ensures
            r.pc == 0,
            r.regs@ == Seq::new(32, |i: int| 0u64),
            r.privilege == PrivilegeMode::Machine,
            !r.branch_taken,
            r.reservation is None,
            r.csr@ == Seq::new(0x1000, |i: int| 0u64),
    {
        let r = CoreState {
            pc: 0,
            regs: [0u64; 32],
            fpr: FpuRegisterFile::new(),
            fcsr: Fcsr::new(),
            csr: CsrFile::new(),
            privilege: PrivilegeMode::Machine,
            branch_taken: false,
            reservation: None,
        };
        assert(r.regs@ =~= Seq::new(32, |i: int| 0u64));
        r
    }
}

/// The instruction word at flat offset `off`: one halfword when its low two
/// bits mark a compressed encoding, otherwise two halfwords (little-endian).
pub open spec fn fetch_spec(m: Seq<u8>, off: u64) -> Result<u32, MemoryError> {
    match checked(access_check(m.len(), off, 2), le16(m, off as int)) {
        Err(e) => Err(e),
        Ok(lo) => if lo & 3 != 3 {
            Ok(lo as u32)
        } else {
            let off2 = off.wrapping_add(2);
            match checked(access_check(m.len(), off2, 2), le16(m, off2 as int)) {
                Err(e) => Err(e),
                Ok(hi) => Ok((lo as u32) | ((hi as u32) << 16u32)),
            }
        },
    }
}

/// The state after an executed instruction: the pc moves past the
/// instruction unless it completed with a control transfer or failed.
pub open spec fn advance(mid: CoreState, r: Result<(), ExecuteError>, len: u64) -> CoreState {
    if r is Ok && !mid.branch_taken {
        CoreState { pc: mid.pc.wrapping_add(len), ..mid }
    } else {
        mid
    }
}

/// What one step of the core does: clear the control-flow flag, fetch at
/// `pc - base`, decode (16- or 32-bit), execute, and advance the pc.  A
/// failed fetch or decode changes nothing else.
pub open spec fn step_post(
    s0: CoreState,
    m0: SimpleMemory,
    base: u64,
    s1: CoreState,
    m1: SimpleMemory,
    r: Result<(), ExecuteError>,
) -> bool {
    let sb = CoreState { branch_taken: false, ..s0 };
    match fetch_spec(m0@, s0.pc.wrapping_sub(base)) {
        Err(e) => r == Err::<(), ExecuteError>(ExecuteError::MemoryError(e)) && s1 == sb && m1 == m0,
        Ok(inst) => if compressed(inst) {
            match decode_16bit_spec(inst as u16) {
                Err(_) => r == Err::<(), ExecuteError>(ExecuteError::InvalidOperation) && s1 == sb
                    && m1 == m0,
                Ok(d) => exists|mid: CoreState|
                    execute_post(d, sb, mid, m0, m1, r) && s1 == #[trigger] advance(mid, r, 2),
            }
        } else {
            match decode_spec(inst) {
                Err(e) => r == Err::<(), ExecuteError>(ExecuteError::DecodeError(e)) && s1 == sb
                    && m1 == m0,
                Ok(d) => exists|mid: CoreState|
                    execute_post(d, sb, mid, m0, m1, r) && s1 == #[trigger] advance(mid, r, 4),
            }
        },
    }
}

/// The instruction a step would execute from flat offset `off`, if it
/// fetches and decodes.
pub open spec fn fetched_instr(m: Seq<u8>, off: u64) -> Option<DecodedInstruction> {
    match fetch_spec(m, off) {
        Err(_) => None,
        Ok(inst) => if compressed(inst) {
            match decode_16bit_spec(inst as u16) {
                Ok(d) => Some(d),
                Err(_) => None,
            }
        } else {
            match decode_spec(inst) {
                Ok(d) => Some(d),
                Err(_) => None,
            }
        },
    }
}

/// x0 still reads zero after a step, unless the step executed a
/// floating-point comparison naming x0 as its destination (those write
/// their result there).
pub proof fn lemma_step_keeps_x0(
    s0: CoreState,
    m0: SimpleMemory,
    base: u64,
    s1: CoreState,
    m1: SimpleMemory,
    r: Result<(), ExecuteError>,
)
    requires
        s0.regs@[0] == 0,
        step_post(s0, m0, base, s1, m1, r),
        !(fetched_instr(m0@, s0.pc.wrapping_sub(base)) matches Some(d) && d.opcode == Opcode::OpFp
            && d.rd == Some(0u8)),
    ensures
        s1.regs@[0] == 0,
{
    let sb = CoreState { branch_taken: false, ..s0 };
    match fetch_spec(m0@, s0.pc.wrapping_sub(base)) {
        Err(_) => {},
        Ok(inst) => if compressed(inst) {
            match decode_16bit_spec(inst as u16) {
                Err(_) => {},
                Ok(d) => {
                    let w = expand_spec(inst as u16)->Ok_0;
                    lemma_decode_wf(w);
                    let mid = choose|mid: CoreState|
                        execute_post(d, sb, mid, m0, m1, r) && s1 == #[trigger] advance(mid, r, 2);
                    lemma_execute_keeps_x0(d, sb, mid, m0, m1, r);
                },
            }
        } else {
            match decode_spec(inst) {
                Err(_) => {},
                Ok(d) => {
                    lemma_decode_wf(inst);
                    let mid = choose|mid: CoreState|
                        execute_post(d, sb, mid, m0, m1, r) && s1 == #[trigger] advance(mid, r, 4);
                    lemma_execute_keeps_x0(d, sb, mid, m0, m1, r);
                },
            }
        },
    }
}

/// One hart and its flat memory.
pub struct RiscvCore {
    state: CoreState,
    memory: SimpleMemory,
    base_addr: u64,
    verbose: bool,
}

impl RiscvCore {
    /// The hart's state.
    pub closed spec fn state_spec(&self) -> CoreState {
        self.state
    }

    /// The memory.
    pub closed spec fn memory_spec(&self) -> SimpleMemory {
        self.memory
    }

    /// The image base subtracted from the pc to find the fetch offset.
    pub closed spec fn base_spec(&self) -> u64 {
        self.base_addr
    }

    /// Whether diagnostics are wanted.
    pub closed spec fn verbose_spec(&self) -> bool {
        self.verbose
    }

    /// A core in the reset state over `memory`, fetching from offset 0.
    pub fn new(memory: SimpleMemory) -> (r: Self)
        ensures
            r.memory_spec() == memory,
            r.base_spec() == 0,
            r.state_spec().pc == 0,
            r.state_spec().regs@ == Seq::new(32, |i: int| 0u64),
            r.state_spec().privilege == PrivilegeMode::Machine,
            !r.state_spec().branch_taken,
            r.state_spec().reservation is None,
    {
        RiscvCore { state: CoreState::default(), memory, base_addr: 0, verbose: false }
    }

    /// Returns to the reset state with the pc at `entry_point`; instructions
    /// are then fetched from `pc - base_addr`.
    pub fn reset(&mut self, entry_point: u64, base_addr: u64)
        ensures
            final(self).memory_spec() == old(self).memory_spec(),
            final(self).base_spec() == base_addr,
            final(self).state_spec().pc == entry_point,
            final(self).state_spec().regs@ == Seq::new(32, |i: int| 0u64),
            final(self).state_spec().privilege == PrivilegeMode::Machine,
            !final(self).state_spec().branch_taken,
            final(self).state_spec().reservation is None,
    {
        let mut s = CoreState::default();
        s.pc = entry_point;
        self.state = s;
        self.base_addr = base_addr;
    }

    /// Sets whether diagnostics are wanted.
    pub fn set_verbose(&mut self, verbose: bool)
        ensures
            final(self).state_spec() == old(self).state_spec(),
            final(self).memory_spec() == old(self).memory_spec(),
            final(self).base_spec() == old(self).base_spec(),
            final(self).verbose_spec() == verbose,
    {
        self.verbose = verbose;
    }

    /// The hart's state.
    pub fn state(&self) -> (r: &CoreState)
        ensures
            *r == self.state_spec(),
    {
        &self.state
    }

    /// The hart's state, for modification.
    pub fn state_mut(&mut self) -> (r: &mut CoreState)
        ensures
            *r == old(self).state_spec(),
            final(self).state_spec() == *final(r),
            final(self).memory_spec() == old(self).memory_spec(),
            final(self).base_spec() == old(self).base_spec(),
    {
        &mut self.state
    }

    /// The memory.
    pub fn memory(&self) -> (r: &SimpleMemory)
        ensures
            *r == self.memory_spec(),
    {
        &self.memory
    }

    /// The memory, for modification.
    pub fn memory_mut(&mut self) -> (r: &mut SimpleMemory)
        ensures
            *r == old(self).memory_spec(),
            final(self).memory_spec() == *final(r),
            final(self).state_spec() == old(self).state_spec(),
            final(self).base_spec() == old(self).base_spec(),
    {
        &mut self.memory
    }

    /// Fetches, decodes and executes one instruction.
    pub fn step(&mut self) -> (r: Result<(), ExecuteError>)
        ensures
            step_post(
                old(self).state_spec(),
                old(self).memory_spec(),
                old(self).base_spec(),
                final(self).state_spec(),
                final(self).memory_spec(),
                r,
            ),
            final(self).base_spec() == old(self).base_spec(),
    {
        self.state.branch_taken = false;
        let off = self.state.pc.wrapping_sub(self.base_addr);
        let lo = match self.memory.read_half(off) {
            Ok(v) => v,
            Err(e) => return Err(ExecuteError::MemoryError(e)),
        };
        let ghost sb = self.state;
        let ghost m0 = self.memory;
        if lo & 3 != 3 {
            assert((lo as u32) & 3 != 3) by (bit_vector)
                requires
                    lo & 3 != 3,
            ;
            assert((lo as u32) as u16 == lo);
            let r = execute_compressed(lo, &mut self.state, &mut self.memory);
            let ghost mid = self.state;
            if r.is_ok() && !self.state.branch_taken {
                self.state.pc = self.state.pc.wrapping_add(2);
            }
            assert(self.state == advance(mid, r, 2));
            return r;
        }
        assert((lo as u32) & 3 == 3) by (bit_vector)
            requires
                lo & 3 == 3,
        ;
        let hi = match self.memory.read_half(off.wrapping_add(2)) {
            Ok(v) => v,
            Err(e) => return Err(ExecuteError::MemoryError(e)),
        };
        let inst: u32 = (lo as u32) | ((hi as u32) << 16);
        assert(inst & 3 == 3) by (bit_vector)
            requires
                inst == (lo as u32) | ((hi as u32) << 16u32),
                lo & 3 == 3,
        ;
        let decoded = match InstructionDecoder::new().decode(inst) {
            Ok(d) => d,
            Err(e) => return Err(ExecuteError::DecodeError(e)),
        };
        let mut executor = Executor::new();
        let r = executor.execute(&decoded, &mut self.state, &mut self.memory);
        let ghost mid = self.state;
        if r.is_ok() && !self.state.branch_taken {
            self.state.pc = self.state.pc.wrapping_add(4);
        }
        assert(self.state == advance(mid, r, 4));
        r
    }
}

} // verus!
