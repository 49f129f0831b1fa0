//! Loading RISC-V ELF64 executables.
//!
//! An image is built from the file's `PT_LOAD` program headers: it starts at
//! the lowest segment address and ends at the highest segment end; each
//! segment's file bytes are copied to its place (later segments over earlier
//! ones) and the rest is zero.  The symbol table, when there is one, names
//! the HTIF `tohost` doubleword and the `begin_signature`/`end_signature`
//! region.
use vstd::prelude::*;
use crate::executor::SignatureInfo;
use crate::memory::{le16, le32, le64, store_bytes};
use crate::text::join_text;

verus! {

/// Why a file is not a loadable image.
#[derive(Debug, Clone, PartialEq, Eq)]
pub enum ElfError {
    /// The file is shorter than an ELF64 header.
    TooShort,
    /// The file does not start with the ELF magic number.
    InvalidMagic,
    /// The file is not a 64-bit ELF file.
    UnsupportedClass,
    /// The file is not little-endian.
    UnsupportedEndianness,
    /// The file is not for RISC-V.
    UnsupportedMachine,
    /// The program header table does not lie inside the file.
    InvalidProgramHeaders,
    /// A loadable segment's bytes lie outside the file, exceed its memory
    /// size, or its memory range overflows the address space.
    InvalidSegment,
    /// No segment is loadable.
    NoLoadableSegments,
    /// The image does not fit in the address space of this machine.
    ImageTooLarge,
    /// The file could not be read.
    IoError(String),
}

/// How an ELF error reads.
pub open spec fn elf_error_text(e: ElfError) -> Seq<char> {
    match e {
        ElfError::TooShort => "file too short for an ELF64 header"@,
        ElfError::InvalidMagic => "invalid ELF magic number"@,
        ElfError::UnsupportedClass => "not a 64-bit ELF file"@,
        ElfError::UnsupportedEndianness => "not a little-endian ELF file"@,
        ElfError::UnsupportedMachine => "not a RISC-V ELF file"@,
        ElfError::InvalidProgramHeaders => "program header table outside the file"@,
        ElfError::InvalidSegment => "malformed loadable segment"@,
        ElfError::NoLoadableSegments => "no loadable segments"@,
        ElfError::ImageTooLarge => "image too large"@,
        ElfError::IoError(s) => "I/O error: "@ + s@,
    }
}

impl ElfError {
    /// The text of this error.
    pub fn to_display_string(&self) -> (r: String)
        ensures
            r@ == elf_error_text(*self),
    {
        let t = match self {
            ElfError::TooShort => "file too short for an ELF64 header",
            ElfError::InvalidMagic => "invalid ELF magic number",
            ElfError::UnsupportedClass => "not a 64-bit ELF file",
            ElfError::UnsupportedEndianness => "not a little-endian ELF file",
            ElfError::UnsupportedMachine => "not a RISC-V ELF file",
            ElfError::InvalidProgramHeaders => "program header table outside the file",
            ElfError::InvalidSegment => "malformed loadable segment",
            ElfError::NoLoadableSegments => "no loadable segments",
            ElfError::ImageTooLarge => "image too large",
            ElfError::IoError(s) => {
                return join_text("I/O error: ", s.as_str());
            },
        };
        t.to_owned()
    }
}

/// A loaded image.
#[derive(Debug, Clone)]
pub struct LoadedElf {
    /// The entry point.
    pub entry_point: u64,
    /// The image bytes, from `base_addr` on.
    pub memory: Vec<u8>,
    /// The lowest segment address.
    pub base_addr: u64,
    /// The address of the `tohost` symbol, if there is one.
    pub tohost: Option<u64>,
    /// The signature region, if both of its symbols are present.
    pub signature: Option<SignatureInfo>,
}

/// The first problem with the ELF header, if any.
pub open spec fn header_error(d: Seq<u8>) -> Option<ElfError> {
    if d.len() < 64 {
        Some(ElfError::TooShort)
    } else if !(d[0] == 0x7F && d[1] == 0x45 && d[2] == 0x4C && d[3] == 0x46) {
        Some(ElfError::InvalidMagic)
    } else if d[4] != 2 {
        Some(ElfError::UnsupportedClass)
    } else if d[5] != 1 {
        Some(ElfError::UnsupportedEndianness)
    } else if le16(d, 18) != 0xF3 {
        Some(ElfError::UnsupportedMachine)
    } else {
        None
    }
}

/// The file offset of the program header table.
pub open spec fn ph_off(d: Seq<u8>) -> u64 {
    le64(d, 32)
}

/// The size of one program header.
pub open spec fn ph_entsize(d: Seq<u8>) -> u16 {
    le16(d, 54)
}

/// The number of program headers.
pub open spec fn ph_num(d: Seq<u8>) -> u16 {
    le16(d, 56)
}

/// Whether every program header lies inside the file.
pub open spec fn ph_table_ok(d: Seq<u8>) -> bool {
    ph_entsize(d) >= 56 && ph_off(d) + ph_num(d) * ph_entsize(d) <= d.len()
}

/// Where program header `i` starts.
pub open spec fn ph_at(d: Seq<u8>, i: int) -> int {
    ph_off(d) + i * ph_entsize(d)
}

/// The type of program header `i`.
pub open spec fn p_type(d: Seq<u8>, i: int) -> u32 {
    le32(d, ph_at(d, i))
}

/// The file offset of segment `i`.
pub open spec fn p_offset(d: Seq<u8>, i: int) -> u64 {
    le64(d, ph_at(d, i) + 8)
}

/// The address of segment `i`.
pub open spec fn p_vaddr(d: Seq<u8>, i: int) -> u64 {
    le64(d, ph_at(d, i) + 16)
}

/// The number of file bytes of segment `i`.
pub open spec fn p_filesz(d: Seq<u8>, i: int) -> u64 {
    le64(d, ph_at(d, i) + 32)
}

/// The number of memory bytes of segment `i`.
pub open spec fn p_memsz(d: Seq<u8>, i: int) -> u64 {
    le64(d, ph_at(d, i) + 40)
}

/// Whether segment `i` is loadable (`PT_LOAD`).
pub open spec fn is_load(d: Seq<u8>, i: int) -> bool {
    p_type(d, i) == 1
}

/// Whether loadable segment `i` is well formed: its file bytes lie inside
/// the file and do not exceed its memory size, and its memory range does
/// not overflow.
pub open spec fn segment_ok(d: Seq<u8>, i: int) -> bool {
    &&& p_offset(d, i) + p_filesz(d, i) <= d.len()
    &&& p_filesz(d, i) <= p_memsz(d, i)
    &&& p_vaddr(d, i) + p_memsz(d, i) <= u64::MAX
}

/// Whether every loadable segment among the first `n` is well formed.
pub open spec fn segments_ok(d: Seq<u8>, n: int) -> bool {
    forall|i: int| 0 <= i < n && #[trigger] is_load(d, i) ==> segment_ok(d, i)
}

/// Whether one of the first `n` segments is loadable.
pub open spec fn any_load(d: Seq<u8>, n: int) -> bool {
    exists|i: int| 0 <= i < n && #[trigger] is_load(d, i)
}

/// The lowest address of the loadable segments among the first `n`
/// (`u64::MAX` when there is none).
pub open spec fn load_lo(d: Seq<u8>, n: nat) -> u64
    decreases n,
{
    if n == 0 {
        u64::MAX
    } else {
        let lo = load_lo(d, (n - 1) as nat);
        if is_load(d, n - 1) && p_vaddr(d, n - 1) < lo {
            p_vaddr(d, n - 1)
        } else {
            lo
        }
    }
}

/// The highest end address of the loadable segments among the first `n`
/// (0 when there is none).
pub open spec fn load_hi(d: Seq<u8>, n: nat) -> int
    decreases n,
{
    if n == 0 {
        0
    } else {
        let hi = load_hi(d, (n - 1) as nat);
        if is_load(d, n - 1) && p_vaddr(d, n - 1) + p_memsz(d, n - 1) > hi {
            p_vaddr(d, n - 1) + p_memsz(d, n - 1)
        } else {
            hi
        }
    }
}

/// The image of `size` bytes from `base` after copying the file bytes of the
/// loadable segments among the first `n`, in order, over zeros.
pub open spec fn image_after(d: Seq<u8>, n: nat, base: u64, size: nat) -> Seq<u8>
    decreases n,
{
    if n == 0 {
        Seq::new(size, |k: int| 0u8)
    } else {
        let prev = image_after(d, (n - 1) as nat, base, size);
        if is_load(d, n - 1) {
            store_bytes(
                prev,
                p_vaddr(d, n - 1) - base,
                d.subrange(p_offset(d, n - 1) as int, p_offset(d, n - 1) + p_filesz(d, n - 1)),
            )
        } else {
            prev
        }
    }
}

/// The little-endian halfword at `a` of a byte slice.
fn read_u16(d: &[u8], a: usize) -> (r: u16)
    requires
        a + 2 <= d@.len(),
    ensures
        r == le16(d@, a as int),
{
    (d[a] as u16) | ((d[a + 1] as u16) << 8)
}

/// The little-endian word at `a` of a byte slice.
fn read_u32(d: &[u8], a: usize) -> (r: u32)
    requires
        a + 4 <= d@.len(),
    ensures
        r == le32(d@, a as int),
{
    (d[a] as u32) | ((d[a + 1] as u32) << 8) | ((d[a + 2] as u32) << 16) | ((d[a + 3] as u32) << 24)
}

/// The little-endian doubleword at `a` of a byte slice.
fn read_u64(d: &[u8], a: usize) -> (r: u64)
    requires
        a + 8 <= d@.len(),
    ensures
        r == le64(d@, a as int),
{
    (d[a] as u64) | ((d[a + 1] as u64) << 8) | ((d[a + 2] as u64) << 16) | ((d[a + 3] as u64) << 24)
        | ((d[a + 4] as u64) << 32) | ((d[a + 5] as u64) << 40) | ((d[a + 6] as u64) << 48) | ((d[a
        + 7] as u64) << 56)
}

/// Checks the ELF header.
fn check_header(d: &[u8]) -> (r: Result<(), ElfError>)
    ensures
        match header_error(d@) {
            Some(e) => r == Err::<(), ElfError>(e),
            None => r is Ok,
        },
{
    if d.len() < 64 {
        return Err(ElfError::TooShort);
    }
    if !(d[0] == 0x7F && d[1] == 0x45 && d[2] == 0x4C && d[3] == 0x46) {
        return Err(ElfError::InvalidMagic);
    }
    if d[4] != 2 {
        return Err(ElfError::UnsupportedClass);
    }
    if d[5] != 1 {
        return Err(ElfError::UnsupportedEndianness);
    }
    if read_u16(d, 18) != 0xF3 {
        return Err(ElfError::UnsupportedMachine);
    }
    Ok(())
}

/// Where program header `i` starts lies before the end of the table.
proof fn lemma_ph_at_bound(d: Seq<u8>, i: int)
    requires
        ph_table_ok(d),
        0 <= i < ph_num(d),
    ensures
        ph_at(d, i) + ph_entsize(d) <= d.len(),
        ph_at(d, i) >= 0,
{
    let e = ph_entsize(d) as int;
    let n = ph_num(d) as int;
    assert(i * e + e <= n * e) by (nonlinear_arith)
        requires
            0 <= i < n,
            e >= 0,
    ;
    assert(i * e >= 0) by (nonlinear_arith)
        requires
            0 <= i,
            e >= 0,
    ;
}

/// Finds the address range of the loadable segments, checking the program
/// header table and every loadable segment.
fn scan_segments(d: &[u8]) -> (r: Result<(u64, u64), ElfError>)
    requires
        header_error(d@) is None,
    ensures
        !ph_table_ok(d@) ==> r == Err::<(u64, u64), ElfError>(ElfError::InvalidProgramHeaders),
        ph_table_ok(d@) && !segments_ok(d@, ph_num(d@) as int) ==> r == Err::<(u64, u64), ElfError>(
            ElfError::InvalidSegment,
        ),
        ph_table_ok(d@) && segments_ok(d@, ph_num(d@) as int) && !any_load(d@, ph_num(d@) as int)
            ==> r == Err::<(u64, u64), ElfError>(ElfError::NoLoadableSegments),
        ph_table_ok(d@) && segments_ok(d@, ph_num(d@) as int) && any_load(d@, ph_num(d@) as int)
            ==> r == Ok::<(u64, u64), ElfError>(
            (load_lo(d@, ph_num(d@) as nat), load_hi(d@, ph_num(d@) as nat) as u64),
        ),
{
    let off = read_u64(d, 32);
    let ent = read_u16(d, 54);
    let num = read_u16(d, 56);
    let len = d.len();
    assert((num as u64) * (ent as u64) <= 0xFFFF * 0xFFFF) by (nonlinear_arith)
        requires
            num <= 0xFFFF,
            ent <= 0xFFFF,
    ;
    let table = (num as u64) * (ent as u64);
    if ent < 56 || off > u64::MAX - table || off + table > len as u64 {
        return Err(ElfError::InvalidProgramHeaders);
    }
    let mut lo: u64 = u64::MAX;
    let mut hi: u64 = 0;
    let mut found = false;
    let mut i: u16 = 0;
    while i < num
        invariant
            len == d@.len(),
            off == ph_off(d@),
            ent == ph_entsize(d@),
            num == ph_num(d@),
            ph_table_ok(d@),
            i <= num,
            lo == load_lo(d@, i as nat),
            hi == load_hi(d@, i as nat),
            segments_ok(d@, i as int),
            found == any_load(d@, i as int),
        decreases num - i,
    {
        proof {
            lemma_ph_at_bound(d@, i as int);
        }
        let at = (off + (i as u64) * (ent as u64)) as usize;
        assert(at as int == ph_at(d@, i as int));
        let ty = read_u32(d, at);
        if ty == 1 {
            let p_off = read_u64(d, at + 8);
            let vaddr = read_u64(d, at + 16);
            let filesz = read_u64(d, at + 32);
            let memsz = read_u64(d, at + 40);
            if p_off > u64::MAX - filesz || p_off + filesz > len as u64 || filesz > memsz || vaddr
                > u64::MAX - memsz {
                assert(!segment_ok(d@, i as int));
                assert(!segments_ok(d@, num as int)) by {
                    assert(is_load(d@, i as int));
                }
                return Err(ElfError::InvalidSegment);
            }
            if vaddr < lo {
                lo = vaddr;
            }
            if vaddr + memsz > hi {
                hi = vaddr + memsz;
            }
            found = true;
            assert(is_load(d@, i as int));
        }
        proof {
            assert forall|j: int| 0 <= j < i + 1 && #[trigger] is_load(d@, j) implies segment_ok(
                d@,
                j,
            ) by {
                if j < i {
                    assert(segments_ok(d@, i as int));
                }
            }
            if found {
                if !any_load(d@, i as int) {
                    assert(is_load(d@, i as int));
                }
            } else {
                assert forall|j: int| 0 <= j < i + 1 implies !#[trigger] is_load(d@, j) by {
                    if j < i {
                        assert(!any_load(d@, i as int));
                    }
                }
            }
        }
        i = i + 1;
    }
    if !found {
        return Err(ElfError::NoLoadableSegments);
    }
    Ok((lo, hi))
}

/// Every loadable segment among the first `n` starts at or above
/// `load_lo` and ends at or below `load_hi`.
proof fn lemma_load_bounds(d: Seq<u8>, n: nat, i: int)
    requires
        0 <= i < n,
        is_load(d, i),
    ensures
        load_lo(d, n) <= p_vaddr(d, i),
        p_vaddr(d, i) + p_memsz(d, i) <= load_hi(d, n),
    decreases n,
{
    if i < n - 1 {
        lemma_load_bounds(d, (n - 1) as nat, i);
    }
}

/// `load_hi` is never below `load_lo` once a segment is loadable, and stays
/// within 64 bits when every segment is well formed.
proof fn lemma_load_hi_bound(d: Seq<u8>, n: nat)
    requires
        segments_ok(d, n as int),
    ensures
        0 <= load_hi(d, n) <= u64::MAX,
    decreases n,
{
    if n > 0 {
        lemma_load_hi_bound(d, (n - 1) as nat);
        if is_load(d, n - 1) {
            assert(segment_ok(d, n - 1));
        }
    }
}

/// The image keeps its size.
proof fn lemma_image_len(d: Seq<u8>, n: nat, base: u64, size: nat)
    ensures
        image_after(d, n, base, size).len() == size,
    decreases n,
{
    if n > 0 {
        lemma_image_len(d, (n - 1) as nat, base, size);
    }
}

/// The image the loadable segments make, from `lo` on, `size` bytes long.
fn build_image(d: &[u8], lo: u64, size: usize) -> (v: Vec<u8>)
    requires
        header_error(d@) is None,
        ph_table_ok(d@),
        segments_ok(d@, ph_num(d@) as int),
        lo == load_lo(d@, ph_num(d@) as nat),
        size == load_hi(d@, ph_num(d@) as nat) - lo,
    ensures
        v@ == image_after(d@, ph_num(d@) as nat, lo, size as nat),
{
    let off = read_u64(d, 32);
    let ent = read_u16(d, 54);
    let num = read_u16(d, 56);
    let len = d.len();
    let mut img: Vec<u8> = vec![0u8; size];
    assert(img@ =~= image_after(d@, 0, lo, size as nat));
    let mut i: u16 = 0;
    while i < num
        invariant
            len == d@.len(),
            off == ph_off(d@),
            ent == ph_entsize(d@),
            num == ph_num(d@),
            ph_table_ok(d@),
            segments_ok(d@, num as int),
            lo == load_lo(d@, num as nat),
            size == load_hi(d@, num as nat) - lo,
            i <= num,
            img@ == image_after(d@, i as nat, lo, size as nat),
        decreases num - i,
    {
        proof {
            lemma_ph_at_bound(d@, i as int);
        }
        let at = (off + (i as u64) * (ent as u64)) as usize;
        assert(at as int == ph_at(d@, i as int));
        let ty = read_u32(d, at);
        if ty == 1 {
            let p_off = read_u64(d, at + 8);
            let vaddr = read_u64(d, at + 16);
            let filesz = read_u64(d, at + 32);
            proof {
                assert(is_load(d@, i as int));
                assert(segment_ok(d@, i as int));
                lemma_load_bounds(d@, num as nat, i as int);
                lemma_image_len(d@, i as nat, lo, size as nat);
            }
            let base = (vaddr - lo) as usize;
            let ghost prev = img@;
            let ghost src = d@.subrange(p_off as int, p_off + filesz);
            let n = filesz as usize;
            let start = p_off as usize;
            let mut k: usize = 0;
            while k < n
                invariant
                    len == d@.len(),
                    k <= n,
                    n == filesz,
                    start == p_off,
                    start + n <= d@.len(),
                    base + n <= size,
                    prev.len() == size,
                    src == d@.subrange(start as int, start + n),
                    img@ == store_bytes(prev, base as int, src.subrange(0, k as int)),
                decreases n - k,
            {
                img.set(base + k, d[start + k]);
                proof {
                    assert(img@ =~= store_bytes(prev, base as int, src.subrange(0, k + 1)));
                }
                k = k + 1;
            }
            assert(src.subrange(0, n as int) =~= src);
        }
        i = i + 1;
    }
    img
}

/// The file offset of the section header table.
pub open spec fn sh_off(d: Seq<u8>) -> u64 {
    le64(d, 40)
}

/// The size of one section header.
pub open spec fn sh_entsize(d: Seq<u8>) -> u16 {
    le16(d, 58)
}

/// The number of section headers.
pub open spec fn sh_num(d: Seq<u8>) -> u16 {
    le16(d, 60)
}

/// Whether every section header lies inside the file.
pub open spec fn sh_table_ok(d: Seq<u8>) -> bool {
    sh_entsize(d) >= 64 && sh_off(d) + sh_num(d) * sh_entsize(d) <= d.len()
}

/// Where section header `i` starts.
pub open spec fn sh_at(d: Seq<u8>, i: int) -> int {
    sh_off(d) + i * sh_entsize(d)
}

/// The type of section `i`.
pub open spec fn sh_type(d: Seq<u8>, i: int) -> u32 {
    le32(d, sh_at(d, i) + 4)
}

/// The file offset of section `i`.
pub open spec fn sh_offset(d: Seq<u8>, i: int) -> u64 {
    le64(d, sh_at(d, i) + 24)
}

/// The size of section `i`.
pub open spec fn sh_size(d: Seq<u8>, i: int) -> u64 {
    le64(d, sh_at(d, i) + 32)
}

/// The section linked from section `i` (a symbol table's string table).
pub open spec fn sh_link(d: Seq<u8>, i: int) -> u32 {
    le32(d, sh_at(d, i) + 40)
}

/// Whether the bytes of section `i` lie inside the file.
pub open spec fn section_in_file(d: Seq<u8>, i: int) -> bool {
    sh_offset(d, i) + sh_size(d, i) <= d.len()
}

/// Whether section `i` is a symbol table (`SHT_SYMTAB`) whose bytes, and
/// those of its string table, lie inside the file.
pub open spec fn is_symtab(d: Seq<u8>, i: int) -> bool {
    &&& sh_type(d, i) == 2
    &&& section_in_file(d, i)
    &&& (sh_link(d, i) as int) < sh_num(d)
    &&& section_in_file(d, sh_link(d, i) as int)
}

/// The first symbol table among the first `n` sections.
pub open spec fn first_symtab(d: Seq<u8>, n: nat) -> Option<int>
    decreases n,
{
    if n == 0 {
        None
    } else {
        match first_symtab(d, (n - 1) as nat) {
            Some(i) => Some(i),
            None => if is_symtab(d, n - 1) {
                Some(n - 1)
            } else {
                None
            },
        }
    }
}

/// The file's symbol table, if its section headers are readable and it has one.
pub open spec fn symtab(d: Seq<u8>) -> Option<int> {
    if header_error(d) is None && sh_table_ok(d) {
        first_symtab(d, sh_num(d) as nat)
    } else {
        None
    }
}

/// Whether the string at offset `noff` of string table `t` is `name`.
pub open spec fn name_is(d: Seq<u8>, t: int, noff: u32, name: Seq<u8>) -> bool {
    let a = sh_offset(d, t) + noff;
    &&& a + name.len() < sh_offset(d, t) + sh_size(d, t)
    &&& d.subrange(a, a + name.len()) == name
    &&& d[a + name.len()] == 0
}

/// Where symbol `j` of symbol table `s` starts.
pub open spec fn sym_at(d: Seq<u8>, s: int, j: int) -> int {
    sh_offset(d, s) + 24 * j
}

/// The value of the first of the first `n` symbols of symbol table `s`
/// called `name`.
pub open spec fn lookup(d: Seq<u8>, s: int, name: Seq<u8>, n: nat) -> Option<u64>
    decreases n,
{
    if n == 0 {
        None
    } else {
        match lookup(d, s, name, (n - 1) as nat) {
            Some(v) => Some(v),
            None => if name_is(d, sh_link(d, s) as int, le32(d, sym_at(d, s, n - 1)), name) {
                Some(le64(d, sym_at(d, s, n - 1) + 8))
            } else {
                None
            },
        }
    }
}

/// The value of the first symbol called `name`, if there is one.
pub open spec fn symbol_value(d: Seq<u8>, name: Seq<u8>) -> Option<u64> {
    match symtab(d) {
        None => None,
        Some(s) => lookup(d, s, name, (sh_size(d, s) / 24) as nat),
    }
}

/// "tohost".
pub open spec fn tohost_name() -> Seq<u8> {
    seq![0x74u8, 0x6F, 0x68, 0x6F, 0x73, 0x74]
}

/// "begin_signature".
pub open spec fn begin_signature_name() -> Seq<u8> {
    seq![0x62u8, 0x65, 0x67, 0x69, 0x6E, 0x5F, 0x73, 0x69, 0x67, 0x6E, 0x61, 0x74, 0x75, 0x72, 0x65]
}

/// "end_signature".
pub open spec fn end_signature_name() -> Seq<u8> {
    seq![0x65u8, 0x6E, 0x64, 0x5F, 0x73, 0x69, 0x67, 0x6E, 0x61, 0x74, 0x75, 0x72, 0x65]
}

/// Section header `i` lies inside the table.
proof fn lemma_sh_at_bound(d: Seq<u8>, i: int)
    requires
        sh_table_ok(d),
        0 <= i < sh_num(d),
    ensures
        sh_at(d, i) + sh_entsize(d) <= d.len(),
        sh_at(d, i) >= 0,
{
    let e = sh_entsize(d) as int;
    let n = sh_num(d) as int;
    assert(i * e + e <= n * e) by (nonlinear_arith)
        requires
            0 <= i < n,
            e >= 0,
    ;
    assert(i * e >= 0) by (nonlinear_arith)
        requires
            0 <= i,
            e >= 0,
    ;
}

/// The offset and size of section `i`.
fn section_range(d: &[u8], i: u16) -> (r: (u64, u64))
    requires
        header_error(d@) is None,
        sh_table_ok(d@),
        i < sh_num(d@),
    ensures
        r == (sh_offset(d@, i as int), sh_size(d@, i as int)),
{
    proof {
        lemma_sh_at_bound(d@, i as int);
    }
    let _len = d.len();
    let off = read_u64(d, 40);
    let ent = read_u16(d, 58);
    let at = (off + (i as u64) * (ent as u64)) as usize;
    (read_u64(d, at + 24), read_u64(d, at + 32))
}

/// Finds the symbol table.
fn find_symtab(d: &[u8]) -> (r: Option<u16>)
    requires
        header_error(d@) is None,
    ensures
        match symtab(d@) {
            Some(i) => r == Some(i as u16) && 0 <= i < sh_num(d@) && is_symtab(d@, i),
            None => r is None,
        },
{
    let off = read_u64(d, 40);
    let ent = read_u16(d, 58);
    let num = read_u16(d, 60);
    let len = d.len();
    assert((num as u64) * (ent as u64) <= 0xFFFF * 0xFFFF) by (nonlinear_arith)
        requires
            num <= 0xFFFF,
            ent <= 0xFFFF,
    ;
    let table = (num as u64) * (ent as u64);
    if ent < 64 || off > u64::MAX - table || off + table > len as u64 {
        return None;
    }
    let mut i: u16 = 0;
    while i < num
        invariant
            len == d@.len(),
            header_error(d@) is None,
            sh_table_ok(d@),
            off == sh_off(d@),
            ent == sh_entsize(d@),
            num == sh_num(d@),
            i <= num,
            first_symtab(d@, i as nat) is None,
        decreases num - i,
    {
        proof {
            lemma_sh_at_bound(d@, i as int);
        }
        let at = (off + (i as u64) * (ent as u64)) as usize;
        assert(at as int == sh_at(d@, i as int));
        let ty = read_u32(d, at + 4);
        let (s_off, s_size) = section_range(d, i);
        let link = read_u32(d, at + 40);
        if ty == 2 && s_off <= u64::MAX - s_size && s_off + s_size <= len as u64 && link < num as u32 {
            let (t_off, t_size) = section_range(d, link as u16);
            if t_off <= u64::MAX - t_size && t_off + t_size <= len as u64 {
                assert(is_symtab(d@, i as int));
                assert(first_symtab(d@, (i + 1) as nat) == Some(i as int));
                proof {
                    lemma_first_symtab_stays(d@, (i + 1) as nat, num as nat);
                }
                return Some(i);
            }
        }
        assert(!is_symtab(d@, i as int));
        i = i + 1;
    }
    None
}

/// A symbol table found among the first `n` sections is the one found among
/// the first `m >= n`.
proof fn lemma_first_symtab_stays(d: Seq<u8>, n: nat, m: nat)
    requires
        n <= m,
        first_symtab(d, n) is Some,
    ensures
        first_symtab(d, m) == first_symtab(d, n),
        0 <= first_symtab(d, n)->0 < n,
        is_symtab(d, first_symtab(d, n)->0),
    decreases m,
{
    if n < m {
        lemma_first_symtab_stays(d, n, (m - 1) as nat);
    } else if n > 0 {
        if first_symtab(d, (n - 1) as nat) is Some {
            lemma_first_symtab_stays(d, (n - 1) as nat, (n - 1) as nat);
        }
    }
}

/// Whether the string at `a` in the string table `[t_off, t_end)` is `name`.
fn name_matches(d: &[u8], t_off: u64, t_end: u64, noff: u32, name: &Vec<u8>) -> (r: bool)
    requires
        t_off <= t_end <= d@.len(),
    ensures
        r == ({
            let a = t_off + noff;
            &&& a + name@.len() < t_end
            &&& d@.subrange(a, a + name@.len()) == name@
            &&& d@[a + name@.len()] == 0
        }),
{
    let len = d.len();
    let nlen = name.len();
    if noff as u64 > t_end - t_off || nlen as u64 >= t_end - t_off - noff as u64 {
        return false;
    }
    let a = (t_off + noff as u64) as usize;
    let mut q: usize = 0;
    while q < nlen
        invariant
            q <= nlen,
            nlen == name@.len(),
            a + nlen < t_end,
            t_end <= d@.len(),
            len == d@.len(),
            a == t_off + noff,
            forall|k: int| 0 <= k < q ==> d@[a + k] == name@[k],
        decreases nlen - q,
    {
        if d[a + q] != name[q] {
            assert(d@.subrange(a as int, a + nlen)[q as int] != name@[q as int]);
            return false;
        }
        q = q + 1;
    }
    assert(d@.subrange(a as int, a + nlen) =~= name@);
    d[a + nlen] == 0
}

/// The value of the first symbol of symbol table `s` called `name`.
fn find_symbol(d: &[u8], s: u16, name: &Vec<u8>) -> (r: Option<u64>)
    requires
        header_error(d@) is None,
        sh_table_ok(d@),
        s < sh_num(d@),
        is_symtab(d@, s as int),
    ensures
        r == lookup(d@, s as int, name@, (sh_size(d@, s as int) / 24) as nat),
{
    let len = d.len();
    let (s_off, s_size) = section_range(d, s);
    proof {
        lemma_sh_at_bound(d@, s as int);
    }
    let off = read_u64(d, 40);
    let ent = read_u16(d, 58);
    let at = (off + (s as u64) * (ent as u64)) as usize;
    let link = read_u32(d, at + 40);
    let (t_off, t_size) = section_range(d, link as u16);
    assert(link as u16 as int == sh_link(d@, s as int) as int);
    let count = s_size / 24;
    let mut j: u64 = 0;
    while j < count
        invariant
            len == d@.len(),
            s_off == sh_offset(d@, s as int),
            s_size == sh_size(d@, s as int),
            t_off == sh_offset(d@, sh_link(d@, s as int) as int),
            t_size == sh_size(d@, sh_link(d@, s as int) as int),
            s_off + s_size <= len,
            t_off + t_size <= len,
            count == s_size / 24,
            j <= count,
            lookup(d@, s as int, name@, j as nat) is None,
        decreases count - j,
    {
        assert(24 * j + 24 <= s_size) by (nonlinear_arith)
            requires
                j < count,
                count == s_size / 24,
        ;
        let p = (s_off + 24 * j) as usize;
        assert(p as int == sym_at(d@, s as int, j as int));
        let noff = read_u32(d, p);
        if name_matches(d, t_off, t_off + t_size, noff, name) {
            let v = read_u64(d, p + 8);
            assert(lookup(d@, s as int, name@, (j + 1) as nat) == Some(v));
            proof {
                lemma_lookup_stays(d@, s as int, name@, (j + 1) as nat, count as nat);
            }
            return Some(v);
        }
        j = j + 1;
    }
    None
}

/// A symbol found among the first `n` is the one found among the first `m >= n`.
proof fn lemma_lookup_stays(d: Seq<u8>, s: int, name: Seq<u8>, n: nat, m: nat)
    requires
        n <= m,
        lookup(d, s, name, n) is Some,
    ensures
        lookup(d, s, name, m) == lookup(d, s, name, n),
    decreases m,
{
    if n < m {
        lemma_lookup_stays(d, s, name, n, (m - 1) as nat);
    }
}

/// The value of the first symbol called `name`.
fn symbol(d: &[u8], tab: Option<u16>, name: &Vec<u8>) -> (r: Option<u64>)
    requires
        header_error(d@) is None,
        match symtab(d@) {
            Some(i) => tab == Some(i as u16) && 0 <= i < sh_num(d@) && is_symtab(d@, i),
            None => tab is None,
        },
    ensures
        r == symbol_value(d@, name@),
{
    match tab {
        None => None,
        Some(s) => {
            assert(sh_table_ok(d@));
            find_symbol(d, s, name)
        },
    }
}

/// The file offset of address `addr`, through the first loadable segment
/// among the first `n` whose file bytes cover it.
pub open spec fn seg_file_offset(d: Seq<u8>, addr: u64, n: nat) -> Option<u64>
    decreases n,
{
    if n == 0 {
        None
    } else {
        match seg_file_offset(d, addr, (n - 1) as nat) {
            Some(o) => Some(o),
            None => if is_load(d, n - 1) && p_vaddr(d, n - 1) <= addr < p_vaddr(d, n - 1) + p_filesz(
                d,
                n - 1,
            ) {
                Some((p_offset(d, n - 1) + (addr - p_vaddr(d, n - 1))) as u64)
            } else {
                None
            },
        }
    }
}

/// The signature region the symbols `begin_signature` and `end_signature`
/// delimit, when both are present and in order; its file offset is that of
/// its start (0 when no segment's file bytes cover it).
pub open spec fn signature_of(d: Seq<u8>) -> Option<SignatureInfo> {
    match (symbol_value(d, begin_signature_name()), symbol_value(d, end_signature_name())) {
        (Some(b), Some(e)) => if e >= b {
            Some(
                SignatureInfo {
                    vaddr: b,
                    size: (e - b) as u64,
                    file_offset: match seg_file_offset(d, b, ph_num(d) as nat) {
                        Some(o) => o,
                        None => 0,
                    },
                },
            )
        } else {
            None
        },
        _ => None,
    }
}

/// What loading a file gives: the entry point, the image bytes, the image
/// base, the `tohost` address and the signature region; or the first
/// problem found.
pub open spec fn elf_image(d: Seq<u8>) -> Result<
    (u64, Seq<u8>, u64, Option<u64>, Option<SignatureInfo>),
    ElfError,
> {
    match header_error(d) {
        Some(e) => Err(e),
        None => {
            let n = ph_num(d);
            if !ph_table_ok(d) {
                Err(ElfError::InvalidProgramHeaders)
            } else if !segments_ok(d, n as int) {
                Err(ElfError::InvalidSegment)
            } else if !any_load(d, n as int) {
                Err(ElfError::NoLoadableSegments)
            } else {
                let lo = load_lo(d, n as nat);
                let size = load_hi(d, n as nat) - lo;
                if size > usize::MAX {
                    Err(ElfError::ImageTooLarge)
                } else {
                    Ok(
                        (
                            le64(d, 24),
                            image_after(d, n as nat, lo, size as nat),
                            lo,
                            symbol_value(d, tohost_name()),
                            signature_of(d),
                        ),
                    )
                }
            }
        },
    }
}

/// The file offset of `addr` through the loadable segments.
fn file_offset_of(d: &[u8], addr: u64) -> (r: Option<u64>)
    requires
        header_error(d@) is None,
        ph_table_ok(d@),
        segments_ok(d@, ph_num(d@) as int),
    ensures
        r == seg_file_offset(d@, addr, ph_num(d@) as nat),
{
    let len = d.len();
    let off = read_u64(d, 32);
    let ent = read_u16(d, 54);
    let num = read_u16(d, 56);
    let mut i: u16 = 0;
    while i < num
        invariant
            len == d@.len(),
            off == ph_off(d@),
            ent == ph_entsize(d@),
            num == ph_num(d@),
            ph_table_ok(d@),
            segments_ok(d@, num as int),
            i <= num,
            seg_file_offset(d@, addr, i as nat) is None,
        decreases num - i,
    {
        proof {
            lemma_ph_at_bound(d@, i as int);
        }
        let at = (off + (i as u64) * (ent as u64)) as usize;
        assert(at as int == ph_at(d@, i as int));
        let ty = read_u32(d, at);
        if ty == 1 {
            let p_off = read_u64(d, at + 8);
            let vaddr = read_u64(d, at + 16);
            let filesz = read_u64(d, at + 32);
            assert(is_load(d@, i as int));
            assert(segment_ok(d@, i as int));
            if vaddr <= addr && addr - vaddr < filesz {
                let o = p_off + (addr - vaddr);
                assert(seg_file_offset(d@, addr, (i + 1) as nat) == Some(o));
                proof {
                    lemma_file_offset_stays(d@, addr, (i + 1) as nat, num as nat);
                }
                return Some(o);
            }
        }
        i = i + 1;
    }
    None
}

/// An offset found through the first `n` segments is the one found through
/// the first `m >= n`.
proof fn lemma_file_offset_stays(d: Seq<u8>, addr: u64, n: nat, m: nat)
    requires
        n <= m,
        seg_file_offset(d, addr, n) is Some,
    ensures
        seg_file_offset(d, addr, m) == seg_file_offset(d, addr, n),
    decreases m,
{
    if n < m {
        lemma_file_offset_stays(d, addr, n, (m - 1) as nat);
    }
}

/// Loads an ELF64 RISC-V executable: checks the header, builds the image
/// from the loadable segments, and reads the `tohost` and signature symbols.
pub fn load_elf_file(data: &[u8]) -> (r: Result<LoadedElf, ElfError>)
    ensures
        match elf_image(data@) {
            Err(e) => r == Err::<LoadedElf, ElfError>(e),
            Ok((entry, mem, base, tohost, sig)) => r matches Ok(l) && l.entry_point == entry
                && l.memory@ == mem && l.base_addr == base && l.tohost == tohost && l.signature
                == sig,
        },
{
    match check_header(data) {
        Err(e) => return Err(e),
        Ok(()) => {},
    }
    let (lo, hi) = match scan_segments(data) {
        Ok(r) => r,
        Err(e) => return Err(e),
    };
    proof {
        let n = ph_num(data@) as nat;
        let i = choose|i: int| 0 <= i < n && #[trigger] is_load(data@, i);
        lemma_load_bounds(data@, n, i);
        lemma_load_hi_bound(data@, n);
    }
    if hi - lo > usize::MAX as u64 {
        return Err(ElfError::ImageTooLarge);
    }
    let size = (hi - lo) as usize;
    let memory = build_image(data, lo, size);
    let entry_point = read_u64(data, 24);
    let tab = find_symtab(data);
    let tohost = symbol(data, tab, &vec![0x74u8, 0x6F, 0x68, 0x6F, 0x73, 0x74]);
    let begin = symbol(
        data,
        tab,
        &vec![0x62u8, 0x65, 0x67, 0x69, 0x6E, 0x5F, 0x73, 0x69, 0x67, 0x6E, 0x61, 0x74, 0x75, 0x72, 0x65],
    );
    let end = symbol(
        data,
        tab,
        &vec![0x65u8, 0x6E, 0x64, 0x5F, 0x73, 0x69, 0x67, 0x6E, 0x61, 0x74, 0x75, 0x72, 0x65],
    );
    proof {
        assert(seq![0x74u8, 0x6F, 0x68, 0x6F, 0x73, 0x74] =~= tohost_name());
    }
    let signature = match (begin, end) {
        (Some(b), Some(e)) => if e >= b {
            let file_offset = match file_offset_of(data, b) {
                Some(o) => o,
                None => 0,
            };
            Some(SignatureInfo { vaddr: b, size: e - b, file_offset })
        } else {
            None
        },
        _ => None,
    };
    Ok(LoadedElf { entry_point, memory, base_addr: lo, tohost, signature })
}

} // verus!
