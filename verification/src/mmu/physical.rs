//! Physical memory as seen by page table walks: one RAM window and a list
//! of described regions.
use vstd::prelude::*;
use crate::memory::{MemoryError, le64, store_le};

verus! {

/// What a region of the physical address space is.
#[derive(Debug, Clone, Copy, PartialEq, Eq, Structural)]
pub enum MemoryRegionType {
    Ram,
    Rom,
    Mmio,
    Reserved,
}

/// Cacheability attributes of a region.
#[derive(Debug, Clone, Copy, PartialEq, Eq, Structural)]
pub struct MemoryAttributes {
    /// Cacheable.
    pub cacheable: bool,
    /// Bufferable.
    pub bufferable: bool,
    /// Device memory.
    pub device: bool,
}

impl Default for MemoryAttributes {
    /// No attribute set.
    fn default() -> (r: Self)
        ensures
            !r.cacheable && !r.bufferable && !r.device,
    {
        MemoryAttributes { cacheable: false, bufferable: false, device: false }
    }
}

/// A described region `[start, start + size)`.
#[derive(Debug, Clone, Copy, PartialEq, Eq, Structural)]
pub struct MemoryRegion {
    /// The first address.
    pub start: u64,
    /// The size in bytes.
    pub size: usize,
    /// What the region is.
    pub region_type: MemoryRegionType,
    /// Its attributes.
    pub attributes: MemoryAttributes,
}

/// Whether `a` lies in `[start, start + size)`.
pub open spec fn in_range(start: u64, size: nat, a: u64) -> bool {
    start <= a && a < start + size
}

/// The doubleword read at `paddr`: aligned to eight, with all eight bytes
/// in RAM; otherwise the misalignment, or the first address outside RAM.
pub open spec fn phys_read_dword(base: u64, ram: Seq<u8>, paddr: u64) -> Result<u64, MemoryError> {
    if paddr & 7 != 0 {
        Err(MemoryError::Misaligned(paddr, 8))
    } else if !in_range(base, ram.len(), paddr) {
        Err(MemoryError::InvalidAddress(paddr))
    } else if !in_range(base, ram.len(), (paddr + 7) as u64) {
        Err(MemoryError::InvalidAddress((base + ram.len()) as u64))
    } else {
        Ok(le64(ram, paddr - base))
    }
}

/// Physical memory: a RAM window at `ram_base` and a list of regions.
pub struct PhysicalMemory {
    regions: Vec<MemoryRegion>,
    ram: Vec<u8>,
    ram_base: u64,
}

impl PhysicalMemory {
    /// The RAM bytes.
    pub closed spec fn ram_spec(&self) -> Seq<u8> {
        self.ram@
    }

    /// The RAM base address.
    pub closed spec fn base_spec(&self) -> u64 {
        self.ram_base
    }

    /// The described regions, in the order they were added.
    pub closed spec fn regions_spec(&self) -> Seq<MemoryRegion> {
        self.regions@
    }

    /// `ram_size` zero bytes of RAM at `ram_base`, described as one
    /// cacheable, bufferable RAM region.
    pub fn new(ram_base: u64, ram_size: usize) -> (r: Self)
        ensures
            r.base_spec() == ram_base,
            r.ram_spec() == Seq::new(ram_size as nat, |i: int| 0u8),
            r.regions_spec() == seq![
                MemoryRegion {
                    start: ram_base,
                    size: ram_size,
                    region_type: MemoryRegionType::Ram,
                    attributes: MemoryAttributes { cacheable: true, bufferable: true, device: false },
                },
            ],
    {
        let mut regions: Vec<MemoryRegion> = Vec::new();
        regions.push(
            MemoryRegion {
                start: ram_base,
                size: ram_size,
                region_type: MemoryRegionType::Ram,
                attributes: MemoryAttributes { cacheable: true, bufferable: true, device: false },
            },
        );
        let mut ram: Vec<u8> = Vec::with_capacity(ram_size);
        let mut i: usize = 0;
        while i < ram_size
            invariant
                i <= ram_size,
                ram@ == Seq::new(i as nat, |j: int| 0u8),
            decreases ram_size - i,
        {
            ram.push(0);
            assert(ram@ =~= Seq::new((i + 1) as nat, |j: int| 0u8));
            i = i + 1;
        }
        let r = PhysicalMemory { regions, ram, ram_base };
        assert(r.regions_spec() =~= seq![
            MemoryRegion {
                start: ram_base,
                size: ram_size,
                region_type: MemoryRegionType::Ram,
                attributes: MemoryAttributes { cacheable: true, bufferable: true, device: false },
            },
        ]);
        r
    }

    /// Appends a region description.
    pub fn add_region(&mut self, region: MemoryRegion)
        ensures
            final(self).regions_spec() == old(self).regions_spec().push(region),
            final(self).ram_spec() == old(self).ram_spec(),
            final(self).base_spec() == old(self).base_spec(),
    {
        self.regions.push(region);
    }

    /// The first region that contains `paddr`.
    pub fn get_region(&self, paddr: u64) -> (r: Option<&MemoryRegion>)
        ensures
            match r {
                Some(reg) => exists|k: int|
                    0 <= k < self.regions_spec().len() && self.regions_spec()[k] == *reg && in_range(
                        reg.start,
                        reg.size as nat,
                        paddr,
                    ) && forall|j: int|
                        0 <= j < k ==> !in_range(
                            #[trigger] self.regions_spec()[j].start,
                            self.regions_spec()[j].size as nat,
                            paddr,
                        ),
                None => forall|j: int|
                    0 <= j < self.regions_spec().len() ==> !in_range(
                        #[trigger] self.regions_spec()[j].start,
                        self.regions_spec()[j].size as nat,
                        paddr,
                    ),
            },
    {
        let mut k: usize = 0;
        while k < self.regions.len()
            invariant
                k <= self.regions@.len(),
                forall|j: int|
                    0 <= j < k ==> !in_range(
                        #[trigger] self.regions@[j].start,
                        self.regions@[j].size as nat,
                        paddr,
                    ),
            decreases self.regions@.len() - k,
        {
            let reg = &self.regions[k];
            if paddr >= reg.start && paddr - reg.start < reg.size as u64 {
                return Some(reg);
            }
            k = k + 1;
        }
        None
    }

    /// Whether `paddr` lies in the RAM window.
    pub fn is_ram(&self, paddr: u64) -> (r: bool)
        ensures
            r == in_range(self.base_spec(), self.ram_spec().len(), paddr),
    {
        paddr >= self.ram_base && paddr - self.ram_base < self.ram.len() as u64
    }

    /// The byte at `paddr`, which must be in RAM.
    pub fn read_byte(&self, paddr: u64) -> (r: Result<u8, MemoryError>)
        ensures
            in_range(self.base_spec(), self.ram_spec().len(), paddr) ==> r == Ok::<u8, MemoryError>(
                self.ram_spec()[paddr - self.base_spec()],
            ),
            !in_range(self.base_spec(), self.ram_spec().len(), paddr) ==> r == Err::<u8, MemoryError>(
                MemoryError::InvalidAddress(paddr),
            ),
    {
        let len = self.ram.len();
        if paddr < self.ram_base || paddr - self.ram_base >= len as u64 {
            return Err(MemoryError::InvalidAddress(paddr));
        }
        let offset = (paddr - self.ram_base) as usize;
        Ok(self.ram[offset])
    }

    /// Writes the byte at `paddr`, which must be in RAM.
    pub fn write_byte(&mut self, paddr: u64, value: u8) -> (r: Result<(), MemoryError>)
        ensures
            in_range(old(self).base_spec(), old(self).ram_spec().len(), paddr) ==> r is Ok
                && final(self).ram_spec() == old(self).ram_spec().update(
                paddr - old(self).base_spec(),
                value,
            ),
            !in_range(old(self).base_spec(), old(self).ram_spec().len(), paddr) ==> r == Err::<
                (),
                MemoryError,
            >(MemoryError::InvalidAddress(paddr)) && final(self).ram_spec() == old(self).ram_spec(),
            final(self).base_spec() == old(self).base_spec(),
            final(self).regions_spec() == old(self).regions_spec(),
    {
        let len = self.ram.len();
        if paddr < self.ram_base || paddr - self.ram_base >= len as u64 {
            return Err(MemoryError::InvalidAddress(paddr));
        }
        let offset = (paddr - self.ram_base) as usize;
        self.ram.set(offset, value);
        Ok(())
    }

    /// Reads the little-endian doubleword at an eight-byte aligned `paddr`.
    pub fn read_dword(&self, paddr: u64) -> (r: Result<u64, MemoryError>)
        ensures
            r == phys_read_dword(self.base_spec(), self.ram_spec(), paddr),
    {
        if paddr & 0x7 != 0 {
            return Err(MemoryError::Misaligned(paddr, 8));
        }
        proof {
            lemma_aligned8(paddr);
        }
        let b0 = match self.read_byte(paddr) {
            Ok(b) => b,
            Err(e) => return Err(e),
        };
        if !self.is_ram(paddr + 7) {
            return Err(MemoryError::InvalidAddress(self.ram_base + self.ram.len() as u64));
        }
        let len = self.ram.len();
        let off = (paddr - self.ram_base) as usize;
        let b1 = self.ram[off + 1];
        let b2 = self.ram[off + 2];
        let b3 = self.ram[off + 3];
        let b4 = self.ram[off + 4];
        let b5 = self.ram[off + 5];
        let b6 = self.ram[off + 6];
        let b7 = self.ram[off + 7];
        Ok((b0 as u64) | ((b1 as u64) << 8) | ((b2 as u64) << 16) | ((b3 as u64) << 24) | ((b4 as u64)
            << 32) | ((b5 as u64) << 40) | ((b6 as u64) << 48) | ((b7 as u64) << 56))
    }

    /// Writes a doubleword at an eight-byte aligned `paddr`, byte by byte
    /// from the lowest; bytes up to the end of RAM are written before an
    /// out-of-range byte stops the write.
    pub fn write_dword(&mut self, paddr: u64, value: u64) -> (r: Result<(), MemoryError>)
        ensures
            final(self).base_spec() == old(self).base_spec(),
            final(self).regions_spec() == old(self).regions_spec(),
            r == (match phys_read_dword(old(self).base_spec(), old(self).ram_spec(), paddr) {
                Ok(_) => Ok(()),
                Err(e) => Err::<(), MemoryError>(e),
            }),
            phys_read_dword(old(self).base_spec(), old(self).ram_spec(), paddr) is Ok ==> final(self).ram_spec()
                == store_le(old(self).ram_spec(), paddr - old(self).base_spec(), 8, value),
    {
        if paddr & 0x7 != 0 {
            return Err(MemoryError::Misaligned(paddr, 8));
        }
        proof {
            lemma_aligned8(paddr);
        }
        let ghost r0 = self.ram_spec();
        let mut i: u64 = 0;
        while i < 8
            invariant
                i <= 8,
                paddr & 7 == 0,
                paddr + 7 <= u64::MAX,
                self.base_spec() == old(self).base_spec(),
                self.regions_spec() == old(self).regions_spec(),
                r0 == old(self).ram_spec(),
                self.ram_spec().len() == r0.len(),
                i > 0 ==> in_range(self.base_spec(), r0.len(), paddr),
                i > 0 ==> in_range(self.base_spec(), r0.len(), (paddr + i - 1) as u64),
                i > 0 ==> self.ram_spec() == store_le(r0, paddr - self.base_spec(), i as int, value),
                i == 0 ==> self.ram_spec() == r0,
            decreases 8 - i,
        {
            let b = byte_of_exec(value, i);
            match self.write_byte(paddr + i, b) {
                Ok(()) => {},
                Err(e) => {
                    assert(i > 0 ==> paddr + i == self.base_spec() + r0.len());
                    return Err(e);
                },
            }
            proof {
                assert(self.ram_spec() =~= store_le(r0, paddr - self.base_spec(), i + 1, value));
            }
            i = i + 1;
        }
        proof {
            assert(in_range(self.base_spec(), r0.len(), (paddr + 7) as u64));
        }
        Ok(())
    }
}

/// An eight-byte aligned address is at least seven below the top.
proof fn lemma_aligned8(p: u64)
    by (bit_vector)
    requires
        p & 7 == 0,
    ensures
        p + 7 <= u64::MAX,
{
}

fn byte_of_exec(v: u64, k: u64) -> (r: u8)
    requires
        k < 8,
    ensures
        r == crate::memory::byte_of(v, k as int),
{
    if k == 0 {
        v as u8
    } else if k == 1 {
        (v >> 8) as u8
    } else if k == 2 {
        (v >> 16) as u8
    } else if k == 3 {
        (v >> 24) as u8
    } else if k == 4 {
        (v >> 32) as u8
    } else if k == 5 {
        (v >> 40) as u8
    } else if k == 6 {
        (v >> 48) as u8
    } else {
        (v >> 56) as u8
    }
}

} // verus!
