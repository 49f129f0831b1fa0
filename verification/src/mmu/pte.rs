//! Sv39 page table entries.
//!
//! Layout: V (bit 0), R, W, X, U, G, A, D (bits 1 to 7), RSW (9:8), and
//! the physical page number from bit 10 (PPN[0] 18:10, PPN[1] 27:19,
//! PPN[2] 53:28).
pub mod flags;

use vstd::prelude::*;

verus! {

/// A page table entry: its raw 64 bits.
#[derive(Debug, Clone, Copy, PartialEq, Eq, Structural)]
pub struct PageTableEntry(u64);

/// The access rights of a page.
#[derive(Debug, Clone, Copy, PartialEq, Eq, Structural)]
pub struct PagePermissions {
    /// Readable.
    pub read: bool,
    /// Writable.
    pub write: bool,
    /// Executable.
    pub execute: bool,
    /// Accessible in user mode.
    pub user: bool,
}

impl Default for PagePermissions {
    /// No rights.
    fn default() -> (r: Self)
        ensures
            !r.read && !r.write && !r.execute && !r.user,
    {
        PagePermissions { read: false, write: false, execute: false, user: false }
    }
}

impl PagePermissions {
    /// Every right.
    pub fn all() -> (r: Self)
        ensures
            r.read && r.write && r.execute && r.user,
    {
        PagePermissions { read: true, write: true, execute: true, user: true }
    }

    /// No right.
    pub fn none() -> (r: Self)
        ensures
            !r.read && !r.write && !r.execute && !r.user,
    {
        PagePermissions { read: false, write: false, execute: false, user: false }
    }

    /// Read and write, supervisor only.
    pub fn rw() -> (r: Self)
        ensures
            r.read && r.write && !r.execute && !r.user,
    {
        PagePermissions { read: true, write: true, execute: false, user: false }
    }

    /// Read and execute, supervisor only.
    pub fn rx() -> (r: Self)
        ensures
            r.read && !r.write && r.execute && !r.user,
    {
        PagePermissions { read: true, write: false, execute: true, user: false }
    }

    /// Read, write and execute, supervisor only.
    pub fn rwx() -> (r: Self)
        ensures
            r.read && r.write && r.execute && !r.user,
    {
        PagePermissions { read: true, write: true, execute: true, user: false }
    }

    /// Read and write, user accessible.
    pub fn user_rw() -> (r: Self)
        ensures
            r.read && r.write && !r.execute && r.user,
    {
        PagePermissions { read: true, write: true, execute: false, user: true }
    }

    /// Read and execute, user accessible.
    pub fn user_rx() -> (r: Self)
        ensures
            r.read && !r.write && r.execute && r.user,
    {
        PagePermissions { read: true, write: false, execute: true, user: true }
    }
}

impl View for PageTableEntry {
    type V = u64;

    closed spec fn view(&self) -> u64 {
        self.0
    }
}

impl Default for PageTableEntry {
    /// The all-zero (invalid) entry.
    fn default() -> (r: Self)
        ensures
            r@ == 0,
    {
        PageTableEntry(0)
    }
}

/// Whether a bit mask is set in an entry.
pub open spec fn has_bit(bits: u64, mask: u64) -> bool {
    bits & mask != 0
}

/// The bits of a leaf for `ppn` with the given rights and global flag.
pub open spec fn leaf_bits(ppn: u64, perms: PagePermissions, global: bool) -> u64 {
    (ppn << 10u64) | flags::V | (if perms.read {
        flags::R
    } else {
        0
    }) | (if perms.write {
        flags::W
    } else {
        0
    }) | (if perms.execute {
        flags::X
    } else {
        0
    }) | (if perms.user {
        flags::U
    } else {
        0
    }) | (if global {
        flags::G
    } else {
        0
    })
}

/// A leaf built for a page number below 2^44 is a valid leaf exactly when
/// it grants a right, carries that page number, and reads back its rights
/// and global flag.
pub proof fn lemma_leaf_roundtrip(ppn: u64, r: bool, w: bool, x: bool, u: bool, g: bool)
    requires
        ppn < 0x1000_0000_0000,
    ensures
        ({
            let bits = leaf_bits(ppn, PagePermissions { read: r, write: w, execute: x, user: u }, g);
            &&& bits >> 10u64 == ppn
            &&& has_bit(bits, flags::V)
            &&& has_bit(bits, flags::R) == r
            &&& has_bit(bits, flags::W) == w
            &&& has_bit(bits, flags::X) == x
            &&& has_bit(bits, flags::U) == u
            &&& has_bit(bits, flags::G) == g
            &&& !has_bit(bits, flags::A)
            &&& !has_bit(bits, flags::D)
            &&& (bits & 0xE != 0) == (r || w || x)
        }),
{
    let bits = leaf_bits(ppn, PagePermissions { read: r, write: w, execute: x, user: u }, g);
    let (rb, wb, xb, ub, gb): (u64, u64, u64, u64, u64) = (
        if r { 2 } else { 0 },
        if w { 4 } else { 0 },
        if x { 8 } else { 0 },
        if u { 16 } else { 0 },
        if g { 32 } else { 0 },
    );
    assert(bits == (ppn << 10u64) | 1u64 | rb | wb | xb | ub | gb);
    assert({
        let v = (ppn << 10u64) | 1u64 | rb | wb | xb | ub | gb;
        &&& v >> 10u64 == ppn
        &&& v & 1 != 0
        &&& (v & 2 != 0) == (rb == 2)
        &&& (v & 4 != 0) == (wb == 4)
        &&& (v & 8 != 0) == (xb == 8)
        &&& (v & 16 != 0) == (ub == 16)
        &&& (v & 32 != 0) == (gb == 32)
        &&& v & 0x40 == 0
        &&& v & 0x80 == 0
        &&& (v & 0xE != 0) == (rb == 2 || wb == 4 || xb == 8)
    }) by (bit_vector)
        requires
            ppn < 0x1000_0000_0000u64,
            rb == 2 || rb == 0,
            wb == 4 || wb == 0,
            xb == 8 || xb == 0,
            ub == 16 || ub == 0,
            gb == 32 || gb == 0,
    ;
}

/// Setting then reading the software bits gives the low two bits written,
/// and setting or clearing A or D is what the flag then reads.
pub proof fn lemma_pte_updates(bits: u64, value: u64)
    by (bit_vector)
    ensures
        (((bits & !flags::RSW_MASK) | ((value & 3) << 8u64)) & flags::RSW_MASK) >> 8u64 == value & 3,
        (bits | flags::A) & flags::A != 0,
        (bits | flags::D) & flags::D != 0,
        (bits & !flags::A) & flags::A == 0,
        (bits & !flags::D) & flags::D == 0,
{
}

impl PageTableEntry {
    /// The entry with exactly these bits.
    pub fn from_raw(bits: u64) -> (r: Self)
        ensures
            r@ == bits,
    {
        PageTableEntry(bits)
    }

    /// The raw bits.
    pub fn bits(&self) -> (r: u64)
        ensures
            r == self@,
    {
        self.0
    }

    /// V is set.
    pub fn is_valid(&self) -> (r: bool)
        ensures
            r == has_bit(self@, flags::V),
    {
        self.0 & flags::V != 0
    }

    /// One of R, W, X is set.
    pub fn is_leaf(&self) -> (r: bool)
        ensures
            r == (self@ & 0xE != 0),
    {
        assert(flags::R | flags::W | flags::X == 0xE) by (bit_vector);
        self.0 & (flags::R | flags::W | flags::X) != 0
    }

    /// Valid and not a leaf: it points to the next level.
    pub fn is_pointer(&self) -> (r: bool)
        ensures
            r == (has_bit(self@, flags::V) && self@ & 0xE == 0),
    {
        self.is_valid() && !self.is_leaf()
    }

    /// Valid and a leaf.
    pub fn is_valid_leaf(&self) -> (r: bool)
        ensures
            r == (has_bit(self@, flags::V) && self@ & 0xE != 0),
    {
        self.is_valid() && self.is_leaf()
    }

    /// PPN[0], bits 18:10.
    pub fn ppn0(&self) -> (r: u64)
        ensures
            r == (self@ >> 10u64) & 0x1FF,
    {
        (self.0 >> 10) & 0x1FF
    }

    /// PPN[1], bits 27:19.
    pub fn ppn1(&self) -> (r: u64)
        ensures
            r == (self@ >> 19u64) & 0x1FF,
    {
        (self.0 >> 19) & 0x1FF
    }

    /// PPN[2], bits 53:28.
    pub fn ppn2(&self) -> (r: u64)
        ensures
            r == (self@ >> 28u64) & 0x3FFFF,
    {
        (self.0 >> 28) & 0x3FFFF
    }

    /// Everything above bit 9.
    pub fn ppn(&self) -> (r: u64)
        ensures
            r == self@ >> 10u64,
    {
        self.0 >> 10
    }

    /// The page number shifted to a byte address (bits beyond 63 dropped).
    pub fn physical_address(&self) -> (r: u64)
        ensures
            r == (self@ >> 10u64) << 12u64,
    {
        self.ppn() << 12
    }

    /// The R, W, X and U bits.
    pub fn permissions(&self) -> (r: PagePermissions)
        ensures
            r.read == has_bit(self@, flags::R),
            r.write == has_bit(self@, flags::W),
            r.execute == has_bit(self@, flags::X),
            r.user == has_bit(self@, flags::U),
    {
        PagePermissions {
            read: self.0 & flags::R != 0,
            write: self.0 & flags::W != 0,
            execute: self.0 & flags::X != 0,
            user: self.0 & flags::U != 0,
        }
    }

    /// G is set.
    pub fn is_global(&self) -> (r: bool)
        ensures
            r == has_bit(self@, flags::G),
    {
        self.0 & flags::G != 0
    }

    /// A is set.
    pub fn is_accessed(&self) -> (r: bool)
        ensures
            r == has_bit(self@, flags::A),
    {
        self.0 & flags::A != 0
    }

    /// D is set.
    pub fn is_dirty(&self) -> (r: bool)
        ensures
            r == has_bit(self@, flags::D),
    {
        self.0 & flags::D != 0
    }

    /// Sets A.
    pub fn set_accessed(&mut self)
        ensures
            final(self)@ == old(self)@ | flags::A,
    {
        self.0 = self.0 | flags::A;
    }

    /// Sets D.
    pub fn set_dirty(&mut self)
        ensures
            final(self)@ == old(self)@ | flags::D,
    {
        self.0 = self.0 | flags::D;
    }

    /// Clears A.
    pub fn clear_accessed(&mut self)
        ensures
            final(self)@ == old(self)@ & !flags::A,
    {
        self.0 = self.0 & !flags::A;
    }

    /// Clears D.
    pub fn clear_dirty(&mut self)
        ensures
            final(self)@ == old(self)@ & !flags::D,
    {
        self.0 = self.0 & !flags::D;
    }

    /// A valid leaf for `ppn` with the given rights and global flag.
    pub fn new_leaf(ppn: u64, perms: PagePermissions, global: bool) -> (r: Self)
        ensures
            r@ == leaf_bits(ppn, perms, global),
    {
        let bits = (ppn << 10) | flags::V | (if perms.read {
            flags::R
        } else {
            0
        }) | (if perms.write {
            flags::W
        } else {
            0
        }) | (if perms.execute {
            flags::X
        } else {
            0
        }) | (if perms.user {
            flags::U
        } else {
            0
        }) | (if global {
            flags::G
        } else {
            0
        });
        PageTableEntry(bits)
    }

    /// A valid pointer to the table at page `ppn`.
    pub fn new_pointer(ppn: u64) -> (r: Self)
        ensures
            r@ == (ppn << 10u64) | flags::V,
    {
        PageTableEntry((ppn << 10) | flags::V)
    }

    /// Not W without R (a reserved combination).
    pub fn has_valid_permissions(&self) -> (r: bool)
        ensures
            r == !(has_bit(self@, flags::W) && !has_bit(self@, flags::R)),
    {
        !(self.0 & flags::W != 0 && self.0 & flags::R == 0)
    }

    /// R is set.
    pub fn readable(&self) -> (r: bool)
        ensures
            r == has_bit(self@, flags::R),
    {
        self.0 & flags::R != 0
    }

    /// W is set.
    pub fn writable(&self) -> (r: bool)
        ensures
            r == has_bit(self@, flags::W),
    {
        self.0 & flags::W != 0
    }

    /// X is set.
    pub fn executable(&self) -> (r: bool)
        ensures
            r == has_bit(self@, flags::X),
    {
        self.0 & flags::X != 0
    }

    /// U is set.
    pub fn user_accessible(&self) -> (r: bool)
        ensures
            r == has_bit(self@, flags::U),
    {
        self.0 & flags::U != 0
    }

    /// The two software bits.
    pub fn rsw(&self) -> (r: u64)
        ensures
            r == (self@ & flags::RSW_MASK) >> 8u64,
    {
        (self.0 & flags::RSW_MASK) >> 8
    }

    /// Sets the software bits to the low two bits of `value`.
    pub fn set_rsw(&mut self, value: u64)
        ensures
            final(self)@ == (old(self)@ & !flags::RSW_MASK) | ((value & 3) << 8u64),
    {
        self.0 = (self.0 & !flags::RSW_MASK) | ((value & 0x3) << 8);
    }
}

} // verus!
