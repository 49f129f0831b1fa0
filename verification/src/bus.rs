//! The system bus of the simulated machine: RAM at a configurable base, a
//! 16550-style UART at `0x1000_0000` and the HTIF `tohost` register at
//! `0x4000_8000`.
//!
//! The UART takes byte accesses only.  Its model is the transmit side the
//! simulator needs: a byte written to the transmit holding register (offset
//! 0, divisor latch closed) is appended to the output; the line status
//! register (offset 5) always reads "transmitter empty" (`0x60`); the
//! receive buffer (offset 0) reads 0 and the interrupt identification
//! register (offset 2) reads "no interrupt" (`0x01`); the other registers,
//! and the divisor latch (offsets 0 and 1 while LCR bit 7 is set), read
//! back what was written.  Offsets 8 and above read 0 and ignore writes.
//!
//! The HTIF register records every doubleword written to it and reads 0.
use vstd::prelude::*;
use crate::memory::{
    MemoryError, MemoryInterface, SimpleMemory, access_check, checked, committed_write, le16, le32,
    le64, same_versions, store_le,
};
use crate::arith::{sext12, sext32, sign_extend_12};
use crate::cpu::{CoreState, advance, fetch_spec, reg_write, same_but_regs};
use crate::decode::{DecodedInstruction, Funct3, InstructionDecoder, Opcode, decode_spec};
use crate::execute::{ExecuteError, Executor, execute_post};
use crate::isa::rv64c::decoder_16bit::{CompressedDecoder, compressed, decode_16bit_spec};

verus! {

/// The base of the UART.
pub const UART_BASE: u64 = 0x1000_0000;
/// The size of the UART window.
pub const UART_SIZE: u64 = 0x100;
/// The base of the HTIF `tohost` register.
pub const BUS_HTIF_BASE: u64 = 0x4000_8000;
/// The size of the HTIF window.
pub const BUS_HTIF_SIZE: u64 = 8;

/// The UART's line status: transmit holding register and transmitter empty.
pub const UART_LSR_IDLE: u8 = 0x60;
/// The UART's interrupt identification: no interrupt pending.
pub const UART_IIR_NONE: u8 = 0x01;

/// The system bus.
pub struct SystemBus {
    ram: SimpleMemory,
    ram_base: u64,
    uart_regs: Vec<u8>,
    uart_out: Vec<u8>,
    htif_writes: Vec<u64>,
}

/// Whether `[addr, addr + width)` lies inside RAM at `base` of `size` bytes.
pub open spec fn ram_route(base: u64, size: nat, addr: u64, width: nat) -> bool {
    addr >= base && addr + width <= base + size
}

/// Whether `addr` is a UART register address.
pub open spec fn uart_route(addr: u64) -> bool {
    UART_BASE <= addr < UART_BASE + UART_SIZE
}

/// Whether `addr` is in the HTIF window.
pub open spec fn htif_route(addr: u64) -> bool {
    BUS_HTIF_BASE <= addr < BUS_HTIF_BASE + BUS_HTIF_SIZE
}

/// The register slot of a UART offset: 0..7 the registers, 8 and 9 the
/// divisor latch bytes, none for offsets 8 and above.
pub open spec fn uart_slot(regs: Seq<u8>, off: u64) -> Option<int> {
    if off >= 8 {
        None
    } else if off < 2 && regs.len() > 3 && regs[3] & 0x80 != 0 {
        Some(8 + off as int)
    } else {
        Some(off as int)
    }
}

/// What a byte read of UART offset `off` gives.
pub open spec fn uart_read_spec(regs: Seq<u8>, off: u64) -> u8 {
    match uart_slot(regs, off) {
        None => 0,
        Some(i) => if i == 0 {
            0
        } else if i == 2 {
            UART_IIR_NONE
        } else if i == 5 {
            UART_LSR_IDLE
        } else if i < regs.len() {
            regs[i]
        } else {
            0
        },
    }
}

/// The UART registers and output after a byte write of `v` at offset `off`.
pub open spec fn uart_write_spec(regs: Seq<u8>, out: Seq<u8>, off: u64, v: u8) -> (Seq<u8>, Seq<u8>) {
    match uart_slot(regs, off) {
        None => (regs, out),
        Some(i) => if i == 0 {
            (regs, out.push(v))
        } else if i < regs.len() {
            (regs.update(i, v), out)
        } else {
            (regs, out)
        },
    }
}

impl SystemBus {
    /// The RAM.
    pub closed spec fn ram_spec(&self) -> SimpleMemory {
        self.ram
    }

    /// The bus address of RAM offset 0.
    pub closed spec fn ram_base_spec(&self) -> u64 {
        self.ram_base
    }

    /// The UART registers (slots 0..7) and divisor latch (slots 8, 9).
    pub closed spec fn uart_regs_spec(&self) -> Seq<u8> {
        self.uart_regs@
    }

    /// The bytes the UART has transmitted.
    pub closed spec fn uart_out_spec(&self) -> Seq<u8> {
        self.uart_out@
    }

    /// The doublewords written to the HTIF register, oldest first.
    pub closed spec fn htif_writes_spec(&self) -> Seq<u64> {
        self.htif_writes@
    }

    /// A bus over `ram` mapped at `ram_base`, with a reset UART and no HTIF
    /// writes.
    pub fn new(ram: SimpleMemory, ram_base: u64) -> (r: Self)
        ensures
            r.ram_spec() == ram,
            r.ram_base_spec() == ram_base,
            r.uart_regs_spec() == Seq::new(10, |i: int| 0u8),
            r.uart_out_spec() == Seq::<u8>::empty(),
            r.htif_writes_spec() == Seq::<u64>::empty(),
    {
        let regs = vec![0u8, 0u8, 0u8, 0u8, 0u8, 0u8, 0u8, 0u8, 0u8, 0u8];
        proof {
            assert(regs@ =~= Seq::new(10, |i: int| 0u8));
        }
        SystemBus { ram, ram_base, uart_regs: regs, uart_out: Vec::new(), htif_writes: Vec::new() }
    }

    /// The RAM.
    pub fn ram(&self) -> (r: &SimpleMemory)
        ensures
            *r == self.ram_spec(),
    {
        &self.ram
    }

    /// The bus address of RAM offset 0.
    pub fn ram_base(&self) -> (r: u64)
        ensures
            r == self.ram_base_spec(),
    {
        self.ram_base
    }

    /// The bytes the UART has transmitted.
    pub fn uart_output(&self) -> (r: &Vec<u8>)
        ensures
            r@ == self.uart_out_spec(),
    {
        &self.uart_out
    }

    /// The doublewords written to the HTIF register, oldest first.
    pub fn htif_writes(&self) -> (r: &Vec<u64>)
        ensures
            r@ == self.htif_writes_spec(),
    {
        &self.htif_writes
    }

    /// Forgets the recorded HTIF writes.
    pub fn clear_htif_writes(&mut self)
        ensures
            final(self).htif_writes_spec() == Seq::<u64>::empty(),
            final(self).ram_spec() == old(self).ram_spec(),
            final(self).ram_base_spec() == old(self).ram_base_spec(),
            final(self).uart_regs_spec() == old(self).uart_regs_spec(),
            final(self).uart_out_spec() == old(self).uart_out_spec(),
    {
        self.htif_writes = Vec::new();
    }

    /// Whether `[addr, addr + width)` lies inside RAM.
    fn is_ram_span(&self, addr: u64, width: u64) -> (r: bool)
        ensures
            r == ram_route(self.ram_base, self.ram@.len(), addr, width as nat),
    {
        let size = self.ram.size() as u64;
        addr >= self.ram_base && (addr - self.ram_base) <= size && width <= size - (addr - self.ram_base)
    }

    /// Whether a byte address is in RAM.
    fn is_ram(&self, addr: u64) -> (r: bool)
        ensures
            r == ram_route(self.ram_base, self.ram@.len(), addr, 1),
    {
        self.is_ram_span(addr, 1)
    }

    /// Whether an address is a UART register.
    fn is_uart(&self, addr: u64) -> (r: bool)
        ensures
            r == uart_route(addr),
    {
        addr >= UART_BASE && addr < UART_BASE + UART_SIZE
    }

    /// Whether an address is in the HTIF window.
    fn is_htif(&self, addr: u64) -> (r: bool)
        ensures
            r == htif_route(addr),
    {
        addr >= BUS_HTIF_BASE && addr < BUS_HTIF_BASE + BUS_HTIF_SIZE
    }

    /// The register slot of a UART offset.
    fn uart_slot(&self, off: u64) -> (r: Option<usize>)
        ensures
            r matches Some(i) ==> uart_slot(self.uart_regs@, off) == Some(i as int),
            r is None ==> uart_slot(self.uart_regs@, off) is None,
    {
        if off >= 8 {
            None
        } else if off < 2 && self.uart_regs.len() > 3 && self.uart_regs[3] & 0x80 != 0 {
            Some(8 + off as usize)
        } else {
            Some(off as usize)
        }
    }

    /// A byte read of UART offset `off`.
    fn uart_read(&self, off: u64) -> (r: u8)
        ensures
            r == uart_read_spec(self.uart_regs@, off),
    {
        match self.uart_slot(off) {
            None => 0,
            Some(i) => if i == 0 {
                0
            } else if i == 2 {
                UART_IIR_NONE
            } else if i == 5 {
                UART_LSR_IDLE
            } else if i < self.uart_regs.len() {
                self.uart_regs[i]
            } else {
                0
            },
        }
    }

    /// A byte write of `v` at UART offset `off`.
    fn uart_write(&mut self, off: u64, v: u8)
        ensures
            (final(self).uart_regs@, final(self).uart_out@) == uart_write_spec(
                old(self).uart_regs@,
                old(self).uart_out@,
                off,
                v,
            ),
            final(self).ram == old(self).ram,
            final(self).ram_base == old(self).ram_base,
            final(self).htif_writes == old(self).htif_writes,
    {
        match self.uart_slot(off) {
            None => {},
            Some(i) => if i == 0 {
                self.uart_out.push(v);
            } else if i < self.uart_regs.len() {
                self.uart_regs.set(i, v);
            },
        }
    }
}

/// What a bus read of `width` bytes (1, 2, 4 or 8) gives: RAM through
/// `addr - base`; a UART byte read gives the register; an HTIF doubleword
/// read gives 0; anything else is an invalid address.
pub open spec fn bus_read_spec(bus: SystemBus, addr: u64, width: nat) -> Result<u64, MemoryError> {
    let ram = bus.ram_spec()@;
    let base = bus.ram_base_spec();
    if width == 1 && ram_route(base, ram.len(), addr, 1) {
        checked(access_check(ram.len(), (addr - base) as u64, 1), ram[addr - base] as u64)
    } else if width != 1 && ram_route(base, ram.len(), addr, width) {
        let off = (addr - base) as u64;
        checked(
            access_check(ram.len(), off, width),
            if width == 2 {
                le16(ram, off as int) as u64
            } else if width == 4 {
                le32(ram, off as int) as u64
            } else {
                le64(ram, off as int)
            },
        )
    } else if width == 1 && uart_route(addr) {
        Ok(uart_read_spec(bus.uart_regs_spec(), (addr - UART_BASE) as u64) as u64)
    } else if uart_route(addr) {
        Err(MemoryError::InvalidAddress(addr))
    } else if width == 8 && htif_route(addr) {
        Ok(0)
    } else {
        Err(MemoryError::InvalidAddress(addr))
    }
}

/// What a bus write of the low `width` bytes of `v` does: RAM through
/// `addr - base`; a UART byte write drives the UART; an HTIF doubleword
/// write is recorded and leaves RAM unchanged; anything else is an invalid
/// address and changes nothing.
pub open spec fn bus_write_post(b0: SystemBus, b1: SystemBus, addr: u64, width: nat, v: u64, r: Result<
    (),
    MemoryError,
>) -> bool {
    let ram = b0.ram_spec()@;
    let base = b0.ram_base_spec();
    &&& b1.ram_base_spec() == base
    &&& if ram_route(base, ram.len(), addr, width) {
        let off = (addr - base) as u64;
        &&& r == access_check(ram.len(), off, width)
        &&& r is Ok ==> b1.ram_spec()@ == store_le(ram, off as int, width as int, v)
            && committed_write(b0.ram_spec(), b1.ram_spec(), off as int, width as int)
        &&& r is Err ==> b1.ram_spec()@ == ram && same_versions(b0.ram_spec(), b1.ram_spec())
        &&& b1.uart_regs_spec() == b0.uart_regs_spec() && b1.uart_out_spec() == b0.uart_out_spec()
        &&& b1.htif_writes_spec() == b0.htif_writes_spec()
    } else if width == 1 && uart_route(addr) {
        &&& r is Ok
        &&& (b1.uart_regs_spec(), b1.uart_out_spec()) == uart_write_spec(
            b0.uart_regs_spec(),
            b0.uart_out_spec(),
            (addr - UART_BASE) as u64,
            v as u8,
        )
        &&& b1.ram_spec() == b0.ram_spec() && b1.htif_writes_spec() == b0.htif_writes_spec()
    } else if width == 8 && !uart_route(addr) && htif_route(addr) {
        &&& r is Ok
        &&& b1.htif_writes_spec() == b0.htif_writes_spec().push(v)
        &&& b1.ram_spec() == b0.ram_spec()
        &&& b1.uart_regs_spec() == b0.uart_regs_spec() && b1.uart_out_spec() == b0.uart_out_spec()
    } else {
        &&& r == Err::<(), MemoryError>(MemoryError::InvalidAddress(addr))
        &&& b1 == b0
    }
}

impl MemoryInterface for SystemBus {
    fn read_dword(&self, addr: u64) -> (r: Result<u64, MemoryError>)
        ensures
            r == bus_read_spec(*self, addr, 8),
    {
        if self.is_ram_span(addr, 8) {
            return self.ram.read_dword(addr - self.ram_base);
        }
        if self.is_uart(addr) {
            return Err(MemoryError::InvalidAddress(addr));
        }
        if self.is_htif(addr) {
            return Ok(0);
        }
        Err(MemoryError::InvalidAddress(addr))
    }

    fn read_word(&self, addr: u64) -> (r: Result<u32, MemoryError>)
        ensures
            r matches Ok(v) ==> bus_read_spec(*self, addr, 4) == Ok::<u64, MemoryError>(v as u64),
            r matches Err(e) ==> bus_read_spec(*self, addr, 4) == Err::<u64, MemoryError>(e),
    {
        if self.is_ram_span(addr, 4) {
            return self.ram.read_word(addr - self.ram_base);
        }
        Err(MemoryError::InvalidAddress(addr))
    }

    fn read_half(&self, addr: u64) -> (r: Result<u16, MemoryError>)
        ensures
            r matches Ok(v) ==> bus_read_spec(*self, addr, 2) == Ok::<u64, MemoryError>(v as u64),
            r matches Err(e) ==> bus_read_spec(*self, addr, 2) == Err::<u64, MemoryError>(e),
    {
        if self.is_ram_span(addr, 2) {
            return self.ram.read_half(addr - self.ram_base);
        }
        Err(MemoryError::InvalidAddress(addr))
    }

    fn read_byte(&self, addr: u64) -> (r: Result<u8, MemoryError>)
        ensures
            r matches Ok(v) ==> bus_read_spec(*self, addr, 1) == Ok::<u64, MemoryError>(v as u64),
            r matches Err(e) ==> bus_read_spec(*self, addr, 1) == Err::<u64, MemoryError>(e),
    {
        if self.is_ram(addr) {
            return self.ram.read_byte(addr - self.ram_base);
        }
        if self.is_uart(addr) {
            return Ok(self.uart_read(addr - UART_BASE));
        }
        Err(MemoryError::InvalidAddress(addr))
    }

    fn read_word_zext(&self, addr: u64) -> (r: Result<u64, MemoryError>)
        ensures
            r == bus_read_spec(*self, addr, 4),
    {
        match self.read_word(addr) {
            Ok(v) => Ok(v as u64),
            Err(e) => Err(e),
        }
    }

    fn read_half_zext(&self, addr: u64) -> (r: Result<u64, MemoryError>)
        ensures
            r == bus_read_spec(*self, addr, 2),
    {
        match self.read_half(addr) {
            Ok(v) => Ok(v as u64),
            Err(e) => Err(e),
        }
    }

    fn read_byte_zext(&self, addr: u64) -> (r: Result<u64, MemoryError>)
        ensures
            r == bus_read_spec(*self, addr, 1),
    {
        match self.read_byte(addr) {
            Ok(v) => Ok(v as u64),
            Err(e) => Err(e),
        }
    }

    fn read_word_sext(&self, addr: u64) -> (r: Result<u64, MemoryError>)
        ensures
            r matches Ok(v) ==> bus_read_spec(*self, addr, 4) matches Ok(w) && v == sext32(w as u32),
            r matches Err(e) ==> bus_read_spec(*self, addr, 4) == Err::<u64, MemoryError>(e),
    {
        match self.read_word(addr) {
            Ok(v) => Ok(crate::arith::sign_extend_32(v)),
            Err(e) => Err(e),
        }
    }

    fn read_half_sext(&self, addr: u64) -> (r: Result<u64, MemoryError>)
        ensures
            r matches Ok(v) ==> bus_read_spec(*self, addr, 2) matches Ok(w) && v == (if w < 0x8000 {
                w
            } else {
                (w + 0xFFFF_FFFF_FFFF_0000u64) as u64
            }),
            r matches Err(e) ==> bus_read_spec(*self, addr, 2) == Err::<u64, MemoryError>(e),
    {
        match self.read_half(addr) {
            Ok(v) => if v < 0x8000 {
                Ok(v as u64)
            } else {
                Ok(v as u64 + 0xFFFF_FFFF_FFFF_0000u64)
            },
            Err(e) => Err(e),
        }
    }

    fn read_byte_sext(&self, addr: u64) -> (r: Result<u64, MemoryError>)
        ensures
            r matches Ok(v) ==> bus_read_spec(*self, addr, 1) matches Ok(w) && v == (if w < 0x80 {
                w
            } else {
                (w + 0xFFFF_FFFF_FFFF_FF00u64) as u64
            }),
            r matches Err(e) ==> bus_read_spec(*self, addr, 1) == Err::<u64, MemoryError>(e),
    {
        match self.read_byte(addr) {
            Ok(v) => if v < 0x80 {
                Ok(v as u64)
            } else {
                Ok(v as u64 + 0xFFFF_FFFF_FFFF_FF00u64)
            },
            Err(e) => Err(e),
        }
    }

    fn write_dword(&mut self, addr: u64, value: u64) -> (r: Result<(), MemoryError>)
        ensures
            bus_write_post(*old(self), *final(self), addr, 8, value, r),
    {
        if self.is_ram_span(addr, 8) {
            return self.ram.write_dword(addr - self.ram_base, value);
        }
        if self.is_uart(addr) {
            return Err(MemoryError::InvalidAddress(addr));
        }
        if self.is_htif(addr) {
            self.htif_writes.push(value);
            return Ok(());
        }
        Err(MemoryError::InvalidAddress(addr))
    }

    fn write_word(&mut self, addr: u64, value: u32) -> (r: Result<(), MemoryError>)
        ensures
            bus_write_post(*old(self), *final(self), addr, 4, value as u64, r),
    {
        if self.is_ram_span(addr, 4) {
            return self.ram.write_word(addr - self.ram_base, value);
        }
        Err(MemoryError::InvalidAddress(addr))
    }

    fn write_half(&mut self, addr: u64, value: u16) -> (r: Result<(), MemoryError>)
        ensures
            bus_write_post(*old(self), *final(self), addr, 2, value as u64, r),
    {
        if self.is_ram_span(addr, 2) {
            return self.ram.write_half(addr - self.ram_base, value);
        }
        Err(MemoryError::InvalidAddress(addr))
    }

    fn write_byte(&mut self, addr: u64, value: u8) -> (r: Result<(), MemoryError>)
        ensures
            bus_write_post(*old(self), *final(self), addr, 1, value as u64, r),
    {
        if self.is_ram(addr) {
            let off = addr - self.ram_base;
            let r = self.ram.write_byte(off, value);
            proof {
                if r is Ok {
                    assert((value as u64) as u8 == value) by (bit_vector);
                    assert(self.ram@ =~= store_le(old(self).ram@, off as int, 1, value as u64));
                }
            }
            return r;
        }
        if self.is_uart(addr) {
            self.uart_write(addr - UART_BASE, value);
            return Ok(());
        }
        Err(MemoryError::InvalidAddress(addr))
    }

    fn size(&self) -> (r: usize)
        ensures
            r == if self.ram_spec()@.len() + UART_SIZE <= usize::MAX {
                (self.ram_spec()@.len() + UART_SIZE) as usize
            } else {
                usize::MAX
            },
    {
        let n = self.ram.size();
        if n <= usize::MAX - 0x100 {
            n + 0x100
        } else {
            usize::MAX
        }
    }
}


/// A memory error with its address moved from a RAM offset to the bus.
pub open spec fn rebase_memory_error(e: MemoryError, base: u64) -> MemoryError {
    match e {
        MemoryError::InvalidAddress(a) => MemoryError::InvalidAddress(a.wrapping_add(base)),
        MemoryError::Misaligned(a, w) => MemoryError::Misaligned(a.wrapping_add(base), w),
        _ => e,
    }
}

/// An execution result with memory-error addresses moved to the bus.
pub open spec fn rebase_result(r: Result<(), ExecuteError>, base: u64) -> Result<(), ExecuteError> {
    match r {
        Err(ExecuteError::MemoryError(e)) => Err(ExecuteError::MemoryError(rebase_memory_error(e, base))),
        _ => r,
    }
}

fn rebase_error(e: MemoryError, base: u64) -> (r: MemoryError)
    ensures
        r == rebase_memory_error(e, base),
{
    match e {
        MemoryError::InvalidAddress(a) => MemoryError::InvalidAddress(a.wrapping_add(base)),
        MemoryError::Misaligned(a, w) => MemoryError::Misaligned(a.wrapping_add(base), w),
        other => other,
    }
}

fn rebase_execution(r: Result<(), ExecuteError>, base: u64) -> (out: Result<(), ExecuteError>)
    ensures
        out == rebase_result(r, base),
{
    match r {
        Err(ExecuteError::MemoryError(e)) => Err(ExecuteError::MemoryError(rebase_error(e, base))),
        other => other,
    }
}

/// The instruction at RAM offset `off` and its length, or why a step stops
/// before executing: a failed fetch, or an encoding that does not decode.
pub open spec fn fetch_decode_spec(m: Seq<u8>, off: u64) -> Result<(DecodedInstruction, u64), ExecuteError> {
    match fetch_spec(m, off) {
        Err(e) => Err(ExecuteError::MemoryError(e)),
        Ok(inst) => if compressed(inst) {
            match decode_16bit_spec(inst as u16) {
                Ok(d) => Ok((d, 2u64)),
                Err(_) => Err(ExecuteError::InvalidOperation),
            }
        } else {
            match decode_spec(inst) {
                Ok(d) => Ok((d, 4u64)),
                Err(e) => Err(ExecuteError::DecodeError(e)),
            }
        },
    }
}

fn fetch_decode(ram: &SimpleMemory, off: u64) -> (r: Result<(DecodedInstruction, u64), ExecuteError>)
    ensures
        r == fetch_decode_spec(ram@, off),
        r matches Ok((d, _)) ==> d.wf(),
{
    let lo = match ram.read_half(off) {
        Ok(v) => v,
        Err(e) => return Err(ExecuteError::MemoryError(e)),
    };
    if lo & 3 != 3 {
        assert((lo as u32) & 3 != 3) by (bit_vector)
            requires
                lo & 3 != 3,
        ;
        assert((lo as u32) as u16 == lo);
        return match CompressedDecoder::new().decode_16bit(lo) {
            Ok(d) => Ok((d, 2)),
            Err(_) => Err(ExecuteError::InvalidOperation),
        };
    }
    assert((lo as u32) & 3 == 3) by (bit_vector)
        requires
            lo & 3 == 3,
    ;
    let hi = match ram.read_half(off.wrapping_add(2)) {
        Ok(v) => v,
        Err(e) => return Err(ExecuteError::MemoryError(e)),
    };
    let inst: u32 = (lo as u32) | ((hi as u32) << 16);
    assert(inst & 3 == 3) by (bit_vector)
        requires
            inst == (lo as u32) | ((hi as u32) << 16u32),
            lo & 3 == 3,
    ;
    match InstructionDecoder::new().decode(inst) {
        Ok(d) => Ok((d, 4)),
        Err(e) => Err(ExecuteError::DecodeError(e)),
    }
}

/// How an instruction reaches the bus.
pub enum BusAccess {
    /// It makes no data access through the bus (or lacks the fields of
    /// one); it executes against RAM as it is.
    NoAccess,
    /// A load, store or AMO whose address `ea` starts in RAM: it executes
    /// against RAM with its base register `rs1` moved to the RAM offset.
    Ram { rs1: u8, ea: u64 },
    /// An integer load or store made through the bus's own accesses: at a
    /// UART or HTIF address, or in RAM through base register x0 (which
    /// cannot be moved) when RAM does not start at 0.
    Direct { ea: u64 },
    /// A load, store or AMO at an address the bus does not map.
    Unmapped { ea: u64 },
}

/// The data address of a load, store or AMO: `rs1` for an AMO, `rs1 +
/// sext(imm)` otherwise.
pub open spec fn data_address(d: DecodedInstruction, s: CoreState) -> u64 {
    let b = s.regs@[d.rs1->0 as int];
    if d.opcode == Opcode::Amo {
        b
    } else {
        b.wrapping_add(sext12(d.imm->0))
    }
}

/// How instruction `d` in state `s` reaches a bus with RAM of `size` bytes
/// at `base`.
pub open spec fn bus_access(d: DecodedInstruction, s: CoreState, base: u64, size: nat) -> BusAccess {
    let memory_op = d.opcode == Opcode::Load || d.opcode == Opcode::Store || d.opcode == Opcode::Amo;
    if !memory_op || d.rs1 is None || (d.opcode != Opcode::Amo && d.imm is None) {
        BusAccess::NoAccess
    } else {
        let ea = data_address(d, s);
        let rs1 = d.rs1->0;
        if ram_route(base, size, ea, 1) && (rs1 != 0 || base == 0) {
            BusAccess::Ram { rs1, ea }
        } else if d.opcode != Opcode::Amo && (uart_route(ea) || htif_route(ea) || ram_route(
            base,
            size,
            ea,
            1,
        )) {
            BusAccess::Direct { ea }
        } else {
            BusAccess::Unmapped { ea }
        }
    }
}

/// Whether a completed instruction wrote its result to integer register `rs1`.
pub open spec fn writes_base(d: DecodedInstruction, rs1: u8, r: Result<(), ExecuteError>) -> bool {
    (d.opcode == Opcode::Load || d.opcode == Opcode::Amo) && d.rd == Some(rs1) && r is Ok
}

/// What a bus load of kind `f3` at `a` gives, extended to 64 bits.
pub open spec fn bus_load_value(b: SystemBus, f3: Funct3, a: u64) -> Option<Result<u64, MemoryError>> {
    let w = match f3 {
        Funct3::AddSub => 1nat,
        Funct3::Xor => 1nat,
        Funct3::Sll => 2nat,
        Funct3::SrlSra => 2nat,
        Funct3::Slt => 4nat,
        Funct3::Or => 4nat,
        _ => 8nat,
    };
    if f3 == Funct3::And {
        None
    } else {
        match bus_read_spec(b, a, w) {
            Err(e) => Some(Err(e)),
            Ok(v) => Some(
                Ok(
                    if f3 == Funct3::AddSub {
                        if v < 0x80 {
                            v
                        } else {
                            (v + 0xFFFF_FFFF_FFFF_FF00u64) as u64
                        }
                    } else if f3 == Funct3::Sll {
                        if v < 0x8000 {
                            v
                        } else {
                            (v + 0xFFFF_FFFF_FFFF_0000u64) as u64
                        }
                    } else if f3 == Funct3::Slt {
                        sext32(v as u32)
                    } else {
                        v
                    },
                ),
            ),
        }
    }
}

/// The value a store of kind `f3` writes: the low 1, 2, 4 or 8 bytes of `x`.
pub open spec fn stored_value(f3: Funct3, x: u64) -> u64 {
    match f3 {
        Funct3::AddSub => (x as u8) as u64,
        Funct3::Sll => (x as u16) as u64,
        Funct3::Slt => (x as u32) as u64,
        _ => x,
    }
}

/// What an integer load or store made through the bus's own accesses does.
pub open spec fn direct_post(
    d: DecodedInstruction,
    s0: CoreState,
    s1: CoreState,
    b0: SystemBus,
    b1: SystemBus,
    ea: u64,
    r: Result<(), ExecuteError>,
) -> bool {
    if d.opcode == Opcode::Load {
        &&& b1 == b0
        &&& same_but_regs(s0, s1)
        &&& match (d.rd, d.funct3) {
            (Some(rd), Some(f3)) => match bus_load_value(b0, f3, ea) {
                Some(Ok(v)) => r is Ok && s1.regs@ == reg_write(s0.regs@, rd, v),
                Some(Err(e)) => r == Err::<(), ExecuteError>(ExecuteError::MemoryError(e)) && s1.regs
                    == s0.regs,
                None => r == Err::<(), ExecuteError>(ExecuteError::InvalidOperation) && s1.regs == s0.regs,
            },
            _ => r == Err::<(), ExecuteError>(ExecuteError::InvalidOperation) && s1.regs == s0.regs,
        }
    } else {
        &&& s1 == s0
        &&& match (d.rs2, d.funct3) {
            (Some(rs2), Some(f3)) => match crate::isa::rv64i::store::store_width(f3) {
                Some(w) => bus_write_post(b0, b1, ea, w, stored_value(f3, s0.regs@[rs2 as int]), match r {
                    Ok(()) => Ok(()),
                    Err(ExecuteError::MemoryError(e)) => Err(e),
                    Err(_) => Err(MemoryError::OutOfBounds),
                }) && (r is Ok || r matches Err(ExecuteError::MemoryError(_))),
                None => r == Err::<(), ExecuteError>(ExecuteError::InvalidOperation) && b1 == b0,
            },
            _ => r == Err::<(), ExecuteError>(ExecuteError::InvalidOperation) && b1 == b0,
        }
    }
}

/// What executing `d` against the bus does to the state and the bus.
pub open spec fn bus_exec_post(
    d: DecodedInstruction,
    s0: CoreState,
    s1: CoreState,
    b0: SystemBus,
    b1: SystemBus,
    r: Result<(), ExecuteError>,
) -> bool {
    let base = b0.ram_base_spec();
    let ram0 = b0.ram_spec();
    match bus_access(d, s0, base, ram0@.len()) {
        BusAccess::NoAccess => {
            &&& execute_post(d, s0, s1, ram0, b1.ram_spec(), r)
            &&& b1.ram_base_spec() == base && b1.uart_regs_spec() == b0.uart_regs_spec()
            &&& b1.uart_out_spec() == b0.uart_out_spec() && b1.htif_writes_spec() == b0.htif_writes_spec()
        },
        BusAccess::Ram { rs1, ea } => {
            &&& exists|sh: CoreState, mid: CoreState, r0: Result<(), ExecuteError>|
                #![trigger execute_post(d, sh, mid, ram0, b1.ram_spec(), r0)]
                {
                    &&& same_but_regs(s0, sh)
                    &&& sh.regs@ == s0.regs@.update(rs1 as int, s0.regs@[rs1 as int].wrapping_sub(base))
                    &&& execute_post(d, sh, mid, ram0, b1.ram_spec(), r0)
                    &&& r == rebase_result(r0, base)
                    &&& same_but_regs(mid, s1)
                    &&& s1.regs@ == if writes_base(d, rs1, r0) {
                        mid.regs@
                    } else {
                        mid.regs@.update(rs1 as int, s0.regs@[rs1 as int])
                    }
                }
            &&& b1.ram_base_spec() == base && b1.uart_regs_spec() == b0.uart_regs_spec()
            &&& b1.uart_out_spec() == b0.uart_out_spec() && b1.htif_writes_spec() == b0.htif_writes_spec()
        },
        BusAccess::Direct { ea } => direct_post(d, s0, s1, b0, b1, ea, r),
        BusAccess::Unmapped { ea } => r == Err::<(), ExecuteError>(
            ExecuteError::MemoryError(MemoryError::InvalidAddress(ea)),
        ) && s1 == s0 && b1 == b0,
    }
}

/// What one step of the bus machine does: clear the control-flow flag,
/// fetch from RAM at `pc - base`, decode, execute against the bus, and
/// advance the pc.
#[verifier::opaque]
pub open spec fn bus_step_post(
    s0: CoreState,
    b0: SystemBus,
    s1: CoreState,
    b1: SystemBus,
    r: Result<(), ExecuteError>,
) -> bool {
    let sb = CoreState { branch_taken: false, ..s0 };
    let base = b0.ram_base_spec();
    match fetch_decode_spec(b0.ram_spec()@, s0.pc.wrapping_sub(base)) {
        Err(e) => r == rebase_result(Err(e), base) && s1 == sb && b1 == b0,
        Ok((d, len)) => exists|mid: CoreState|
            bus_exec_post(d, sb, mid, b0, b1, r) && s1 == #[trigger] advance(mid, r, len),
    }
}

/// Executes `d` against the bus.
fn bus_execute(d: &DecodedInstruction, state: &mut CoreState, bus: &mut SystemBus) -> (r: Result<(), ExecuteError>)
    requires
        d.wf(),
    ensures
        bus_exec_post(*d, *old(state), *final(state), *old(bus), *final(bus), r),
{
    let memory_op = match d.opcode {
        Opcode::Load => true,
        Opcode::Store => true,
        Opcode::Amo => true,
        _ => false,
    };
    let is_amo = match d.opcode {
        Opcode::Amo => true,
        _ => false,
    };
    let fields = match (d.rs1, d.imm) {
        (Some(rs1), Some(imm)) => Some((rs1, imm)),
        (Some(rs1), None) => if is_amo {
            Some((rs1, 0u32))
        } else {
            None
        },
        _ => None,
    };
    if !memory_op || fields.is_none() {
        let mut ex = Executor::new();
        return ex.execute(d, state, &mut bus.ram);
    }
    let (rs1, imm) = match fields {
        Some(f) => f,
        None => return Err(ExecuteError::InvalidOperation),
    };
    let b = state.regs[rs1 as usize];
    let ea = if is_amo {
        b
    } else {
        b.wrapping_add(sign_extend_12(imm))
    };
    if bus.is_ram(ea) && (rs1 != 0 || bus.ram_base == 0) {
        let ghost s0 = *state;
        state.regs[rs1 as usize] = b.wrapping_sub(bus.ram_base);
        let ghost sh = *state;
        let mut ex = Executor::new();
        let r0 = ex.execute(d, state, &mut bus.ram);
        let ghost mid = *state;
        let keep = match d.opcode {
            Opcode::Store => false,
            _ => d.rd == Some(rs1) && r0.is_ok(),
        };
        if !keep {
            state.regs[rs1 as usize] = b;
        }
        proof {
            assert(sh.regs@ =~= s0.regs@.update(rs1 as int, s0.regs@[rs1 as int].wrapping_sub(bus.ram_base)));
            if !writes_base(*d, rs1, r0) {
                assert(state.regs@ =~= mid.regs@.update(rs1 as int, s0.regs@[rs1 as int]));
            }
            assert(execute_post(*d, sh, mid, old(bus).ram, bus.ram, r0));
        }
        return rebase_execution(r0, bus.ram_base);
    }
    if !is_amo && (bus.is_uart(ea) || bus.is_htif(ea) || bus.is_ram(ea)) {
        return bus_direct_access(d, state, bus, ea);
    }
    Err(ExecuteError::MemoryError(MemoryError::InvalidAddress(ea)))
}

/// An integer load or store made through the bus's own accesses.
fn bus_direct_access(d: &DecodedInstruction, state: &mut CoreState, bus: &mut SystemBus, ea: u64) -> (r: Result<(), ExecuteError>)
    requires
        d.wf(),
        d.opcode == Opcode::Load || d.opcode == Opcode::Store,
    ensures
        direct_post(*d, *old(state), *final(state), *old(bus), *final(bus), ea, r),
{
    let is_load = match d.opcode {
        Opcode::Load => true,
        _ => false,
    };
    if is_load {
        let (rd, f3) = match (d.rd, d.funct3) {
            (Some(rd), Some(f3)) => (rd, f3),
            _ => return Err(ExecuteError::InvalidOperation),
        };
        let loaded = match f3 {
            Funct3::AddSub => bus.read_byte_sext(ea),
            Funct3::Sll => bus.read_half_sext(ea),
            Funct3::Slt => bus.read_word_sext(ea),
            Funct3::Sltu => bus.read_dword(ea),
            Funct3::Xor => bus.read_byte_zext(ea),
            Funct3::SrlSra => bus.read_half_zext(ea),
            Funct3::Or => bus.read_word_zext(ea),
            Funct3::And => return Err(ExecuteError::InvalidOperation),
        };
        let v = match loaded {
            Ok(v) => v,
            Err(e) => return Err(ExecuteError::MemoryError(e)),
        };
        state.write_reg(rd, v);
        Ok(())
    } else {
        let (rs2, f3) = match (d.rs2, d.funct3) {
            (Some(rs2), Some(f3)) => (rs2, f3),
            _ => return Err(ExecuteError::InvalidOperation),
        };
        let x = state.regs[rs2 as usize];
        let written = match f3 {
            Funct3::AddSub => bus.write_byte(ea, x as u8),
            Funct3::Sll => bus.write_half(ea, x as u16),
            Funct3::Slt => bus.write_word(ea, x as u32),
            Funct3::Sltu => bus.write_dword(ea, x),
            _ => return Err(ExecuteError::InvalidOperation),
        };
        match written {
            Ok(()) => Ok(()),
            Err(e) => Err(ExecuteError::MemoryError(e)),
        }
    }
}

/// Runs one instruction of the bus machine: fetches it from RAM at
/// `pc - ram_base`, executes it against the bus and advances the pc.
pub fn bus_step(state: &mut CoreState, bus: &mut SystemBus) -> (r: Result<(), ExecuteError>)
    ensures
        bus_step_post(*old(state), *old(bus), *final(state), *final(bus), r),
        final(bus).ram_base_spec() == old(bus).ram_base_spec(),
{
    state.branch_taken = false;
    let off = state.pc.wrapping_sub(bus.ram_base);
    let (d, len) = match fetch_decode(&bus.ram, off) {
        Ok(x) => x,
        Err(e) => {
            proof {
                reveal(bus_step_post);
            }
            return rebase_execution(Err(e), bus.ram_base);
        },
    };
    let r = bus_execute(&d, state, bus);
    let ghost mid = *state;
    if r.is_ok() && !state.branch_taken {
        state.pc = state.pc.wrapping_add(len);
    }
    assert(*state == advance(mid, r, len));
    proof {
        reveal(bus_step_post);
    }
    r
}


/// The instruction bits at bus address `pc`: the halfword of a compressed
/// instruction, else the word; 0 when they cannot be fetched from RAM.
pub open spec fn fetched_bits(b: SystemBus, pc: u64) -> u32 {
    match fetch_spec(b.ram_spec()@, pc.wrapping_sub(b.ram_base_spec())) {
        Ok(inst) => inst,
        Err(_) => 0,
    }
}

/// The instruction bits at bus address `pc`, as `fetched_bits` describes.
pub fn fetch_bits(bus: &SystemBus, pc: u64) -> (r: u32)
    ensures
        r == fetched_bits(*bus, pc),
{
    let off = pc.wrapping_sub(bus.ram_base);
    let lo = match bus.ram.read_half(off) {
        Ok(v) => v,
        Err(_) => return 0,
    };
    if lo & 3 != 3 {
        return lo as u32;
    }
    let hi = match bus.ram.read_half(off.wrapping_add(2)) {
        Ok(v) => v,
        Err(_) => return 0,
    };
    (lo as u32) | ((hi as u32) << 16)
}

} // verus!
