//! Control and status registers.
//!
//! The file holds the 4096 CSRs of the 12-bit address space.  Addresses
//! whose bits 11:10 are `11` are read-only: writing them fails.
use vstd::prelude::*;

pub mod machine;
pub mod supervisor;

verus! {

/// CSR access errors.
#[derive(Debug, Clone, Copy, PartialEq, Eq, Structural)]
pub enum CsrError {
    /// The address is outside the 12-bit CSR space.
    InvalidAddress(u16),
    /// A write to a read-only CSR.
    ReadOnly(u16),
}

/// Whether a CSR address is read-only (bits 11:10 are `11`).
pub open spec fn csr_read_only(addr: u16) -> bool {
    addr >= 0xC00
}

/// The 4096 control and status registers.
#[derive(Debug, Clone)]
pub struct CsrFile {
    regs: Vec<u64>,
}

impl View for CsrFile {
    type V = Seq<u64>;

    closed spec fn view(&self) -> Seq<u64> {
        self.regs@
    }
}

/// The outcome of a read of `addr`.
pub open spec fn csr_read_spec(regs: Seq<u64>, addr: u16) -> Result<u64, CsrError> {
    if addr >= 0x1000 || addr >= regs.len() {
        Err(CsrError::InvalidAddress(addr))
    } else {
        Ok(regs[addr as int])
    }
}

/// The outcome of a write of `addr`.
pub open spec fn csr_write_check(regs: Seq<u64>, addr: u16) -> Result<(), CsrError> {
    if addr >= 0x1000 || addr >= regs.len() {
        Err(CsrError::InvalidAddress(addr))
    } else if csr_read_only(addr) {
        Err(CsrError::ReadOnly(addr))
    } else {
        Ok(())
    }
}

/// A successful write of a CSR is what a read of it then returns, and the
/// other CSRs read as before.
pub proof fn lemma_csr_read_after_write(regs: Seq<u64>, addr: u16, value: u64, other: u16)
    requires
        csr_write_check(regs, addr) is Ok,
        other != addr,
    ensures
        csr_read_spec(regs.update(addr as int, value), addr) == Ok::<u64, CsrError>(value),
        csr_read_spec(regs.update(addr as int, value), other) == csr_read_spec(regs, other),
{
}

impl CsrFile {
    /// A copy of this register file.
    pub(crate) fn duplicate(&self) -> (r: Self)
        ensures
            r@ == self@,
    {
        let regs = self.regs.clone();
        assert(regs@ =~= self.regs@);
        CsrFile { regs }
    }

    /// Every CSR holds zero.
    pub fn new() -> (r: Self)
        ensures
            r@ == Seq::new(0x1000, |i: int| 0u64),
    {
        let mut regs: Vec<u64> = Vec::with_capacity(0x1000);
        let mut i: usize = 0;
        while i < 0x1000
            invariant
                i <= 0x1000,
                regs@.len() == i,
                forall|j: int| 0 <= j < i ==> #[trigger] regs@[j] == 0u64,
            decreases 0x1000 - i,
        {
            regs.push(0);
            i = i + 1;
        }
        let r = CsrFile { regs };
        assert(r@ =~= Seq::new(0x1000, |i: int| 0u64));
        r
    }

    /// Reads one CSR.
    pub fn read(&self, addr: u16) -> (r: Result<u64, CsrError>)
        ensures
            r == csr_read_spec(self@, addr),
    {
        if addr >= 0x1000 || addr as usize >= self.regs.len() {
            return Err(CsrError::InvalidAddress(addr));
        }
        Ok(self.regs[addr as usize])
    }

    /// Writes one CSR; read-only and out-of-range addresses fail unchanged.
    pub fn write(&mut self, addr: u16, value: u64) -> (r: Result<(), CsrError>)
        ensures
            r == csr_write_check(old(self)@, addr),
            r is Ok ==> final(self)@ == old(self)@.update(addr as int, value),
            r is Err ==> *final(self) == *old(self),
    {
        if addr >= 0x1000 || addr as usize >= self.regs.len() {
            return Err(CsrError::InvalidAddress(addr));
        }
        if addr >= 0xC00 {
            return Err(CsrError::ReadOnly(addr));
        }
        self.regs.set(addr as usize, value);
        Ok(())
    }

    /// Atomically returns the old value and writes `value` (CSRRW).
    pub fn read_write(&mut self, addr: u16, value: u64) -> (r: Result<u64, CsrError>)
        ensures
            r == (match csr_write_check(old(self)@, addr) {
                Ok(()) => Ok(old(self)@[addr as int]),
                Err(e) => Err(e),
            }),
            r is Ok ==> final(self)@ == old(self)@.update(addr as int, value),
            r is Err ==> *final(self) == *old(self),
    {
        let old_value = match self.read(addr) {
            Ok(v) => v,
            Err(e) => return Err(e),
        };
        match self.write(addr, value) {
            Ok(()) => Ok(old_value),
            Err(e) => Err(e),
        }
    }

    /// Returns the old value and sets the bits of `mask` (CSRRS); a zero mask
    /// only reads.
    pub fn read_set(&mut self, addr: u16, mask: u64) -> (r: Result<u64, CsrError>)
        ensures
            mask == 0 ==> r == csr_read_spec(old(self)@, addr) && final(self)@ == old(self)@,
            mask != 0 ==> r == (match csr_write_check(old(self)@, addr) {
                Ok(()) => Ok(old(self)@[addr as int]),
                Err(e) => Err(e),
            }),
            mask != 0 && r is Ok ==> final(self)@ == old(self)@.update(
                addr as int,
                old(self)@[addr as int] | mask,
            ),
            r is Err ==> *final(self) == *old(self),
    {
        let old_value = match self.read(addr) {
            Ok(v) => v,
            Err(e) => return Err(e),
        };
        if mask != 0 {
            match self.write(addr, old_value | mask) {
                Ok(()) => {},
                Err(e) => return Err(e),
            }
        }
        Ok(old_value)
    }

    /// Returns the old value and clears the bits of `mask` (CSRRC); a zero
    /// mask only reads.
    pub fn read_clear(&mut self, addr: u16, mask: u64) -> (r: Result<u64, CsrError>)
        ensures
            mask == 0 ==> r == csr_read_spec(old(self)@, addr) && final(self)@ == old(self)@,
            mask != 0 ==> r == (match csr_write_check(old(self)@, addr) {
                Ok(()) => Ok(old(self)@[addr as int]),
                Err(e) => Err(e),
            }),
            mask != 0 && r is Ok ==> final(self)@ == old(self)@.update(
                addr as int,
                old(self)@[addr as int] & !mask,
            ),
            r is Err ==> *final(self) == *old(self),
    {
        let old_value = match self.read(addr) {
            Ok(v) => v,
            Err(e) => return Err(e),
        };
        if mask != 0 {
            match self.write(addr, old_value & !mask) {
                Ok(()) => {},
                Err(e) => return Err(e),
            }
        }
        Ok(old_value)
    }
}

} // verus!
