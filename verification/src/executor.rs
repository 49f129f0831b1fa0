//! Running a loaded image to completion.
//!
//! A guest signals its exit by writing a tohost doubleword in one of two
//! formats: the standard HTIF form `(device << 56) | (cmd << 48) | payload`
//! with device 0, command 0 and payload `(exit_code << 1) | 1`, or the
//! marker form `(1 << 63) | exit_code`.  After every retired instruction the
//! simulator reads the tohost doubleword; an exit signal ends the run and
//! the doubleword is cleared.
use vstd::prelude::*;
pub use crate::bus::SystemBus;
use crate::bus::{bus_read_spec, bus_step, bus_step_post, fetch_bits, fetched_bits, ram_route};
use crate::commit_log::{CommitRecord, commit_matches, commit_record};
use crate::cpu::{CoreState, RiscvCore, step_post};
use crate::execute::ExecuteError;
use crate::elf::{ElfError, elf_error_text, elf_image, load_elf_file};
use crate::isa::rv64a::lr_sc::same_reservation;
use crate::text::{dec_digits, dec_min, hex16, hex_digits, hex_min, hex_prefix, join_text};
use crate::memory::{memory_error_text, MemoryError, MemoryInterface, SimpleMemory, byte_of, le64, span_inside, access_check, checked, store_bytes, store_le};

verus! {

/// The outcome of a run.
#[derive(Debug, Clone)]
pub struct ExecutionResult {
    /// Exit code (0 for success).
    pub exit_code: u32,
    /// Number of retired instructions.
    pub cycles: u64,
    /// The final program counter.
    pub final_pc: u64,
    /// Whether the instruction budget ran out.
    pub timed_out: bool,
    /// A description of what went wrong, if anything.
    pub error: Option<String>,
    /// The guest address of the signature region, if the image declares one.
    pub signature_addr: Option<u64>,
    /// The signature bytes, if they could be read.
    pub signature_data: Option<Vec<u8>>,
}

impl Default for ExecutionResult {
    /// Exit code 0, no cycles, pc 0, no timeout, no error, no signature.
    fn default() -> (r: Self)
        ensures
            r.exit_code == 0,
            r.cycles == 0,
            r.final_pc == 0,
            !r.timed_out,
            r.error is None,
            r.signature_addr is None,
            r.signature_data is None,
    {
        ExecutionResult {
            exit_code: 0,
            cycles: 0,
            final_pc: 0,
            timed_out: false,
            error: None,
            signature_addr: None,
            signature_data: None,
        }
    }
}

/// Why a run could not be carried out.
#[derive(Debug, Clone)]
pub enum ExecutorError {
    /// The ELF file could not be loaded.
    ElfLoadError(ElfError),
    /// No memory could be set up for the image.
    MemoryAllocationFailed,
    /// The instruction budget ran out.
    Timeout(u64),
    /// A configuration or access problem, described.
    ExecutionError(String),
    /// The tohost address cannot be used.
    InvalidTohostAddress,
}

/// The default tohost address.
pub const DEFAULT_TOHOST: u64 = 0x4000_8000;
/// The base of the HTIF device.
pub const HTIF_BASE: u64 = 0x4000_8000;
/// The size of the HTIF device (one doubleword).
pub const HTIF_SIZE: usize = 8;
/// The default instruction budget.
pub const DEFAULT_MAX_CYCLES: u64 = 10_000_000;
/// HTIF device of the syscall/exit command.
pub const HTIF_DEVICE_SYSCALL: u64 = 0;
/// HTIF command of the syscall/exit command.
pub const HTIF_CMD_SYSCALL: u64 = 0;
/// Position of the HTIF device field.
pub const HTIF_DEVICE_SHIFT: u64 = 56;
/// Position of the HTIF command field.
pub const HTIF_CMD_SHIFT: u64 = 48;
/// The HTIF device field.
pub const HTIF_DEVICE_MASK: u64 = 0xFF00_0000_0000_0000;
/// The HTIF command field.
pub const HTIF_CMD_MASK: u64 = 0x00FF_0000_0000_0000;
/// The HTIF payload field (bits 47:0).
pub const HTIF_PAYLOAD_MASK: u64 = 0x0000_FFFF_FFFF_FFFF;

/// The exit code a tohost value signals, if any: zero signals nothing; the
/// HTIF form (device 0, command 0, payload bit 0 set) signals payload >> 1
/// (truncated to 32 bits); otherwise bit 63 set signals the low 32 bits.
pub open spec fn exit_code_of(v: u64) -> Option<u32> {
    if v == 0 {
        None
    } else if (v & HTIF_DEVICE_MASK) >> HTIF_DEVICE_SHIFT == HTIF_DEVICE_SYSCALL && (v
        & HTIF_CMD_MASK) >> HTIF_CMD_SHIFT == HTIF_CMD_SYSCALL && (v & HTIF_PAYLOAD_MASK) & 1 != 0 {
        Some(((v & HTIF_PAYLOAD_MASK) >> 1u64) as u32)
    } else if v & 0x8000_0000_0000_0000 != 0 {
        Some((v & 0xFFFF_FFFF) as u32)
    } else {
        None
    }
}

/// An exit code written in the HTIF form, `(code << 1) | 1`, or in the
/// marker form, `(1 << 63) | code`, is the code extracted.
pub proof fn lemma_exit_code_forms(code: u32)
    ensures
        exit_code_of(((code as u64) << 1u64) | 1) == Some(code),
        exit_code_of(0x8000_0000_0000_0000u64 | (code as u64)) == Some(code),
{
    lemma_exit_code_fields(code);
}

proof fn lemma_exit_code_fields(code: u32)
    by (bit_vector)
    ensures
        ({
            let h = ((code as u64) << 1u64) | 1;
            &&& h != 0
            &&& (h & 0xFF00_0000_0000_0000u64) >> 56u64 == 0
            &&& (h & 0x00FF_0000_0000_0000u64) >> 48u64 == 0
            &&& (h & 0x0000_FFFF_FFFF_FFFFu64) & 1 != 0
            &&& ((h & 0x0000_FFFF_FFFF_FFFFu64) >> 1u64) as u32 == code
        }),
        ({
            let m = 0x8000_0000_0000_0000u64 | (code as u64);
            &&& m != 0
            &&& (m & 0xFF00_0000_0000_0000u64) >> 56u64 != 0
            &&& m & 0x8000_0000_0000_0000u64 != 0
            &&& (m & 0xFFFF_FFFFu64) as u32 == code
        }),
{
}

/// Extracts the exit code a tohost value signals.
pub fn try_extract_exit_code(tohost_value: u64) -> (r: Option<u32>)
    ensures
        r == exit_code_of(tohost_value),
{
    if tohost_value == 0 {
        return None;
    }
    let device = (tohost_value & HTIF_DEVICE_MASK) >> HTIF_DEVICE_SHIFT;
    let cmd = (tohost_value & HTIF_CMD_MASK) >> HTIF_CMD_SHIFT;
    let payload = tohost_value & HTIF_PAYLOAD_MASK;
    if device == HTIF_DEVICE_SYSCALL && cmd == HTIF_CMD_SYSCALL && payload & 1 != 0 {
        return Some((payload >> 1) as u32);
    }
    if tohost_value & (1u64 << 63) != 0 {
        assert(1u64 << 63u64 == 0x8000_0000_0000_0000u64) by (bit_vector);
        return Some((tohost_value & 0xFFFFFFFF) as u32);
    }
    assert(1u64 << 63u64 == 0x8000_0000_0000_0000u64) by (bit_vector);
    None
}

/// Writes eight zero bytes at `tohost_addr`; bytes outside memory are skipped.
pub fn clear_tohost(mem: &mut SimpleMemory, tohost_addr: u64)
    ensures
        final(mem)@.len() == old(mem)@.len(),
        span_inside(0, old(mem)@.len(), tohost_addr, 8) ==> final(mem)@ == crate::memory::store_le(
            old(mem)@,
            tohost_addr as int,
            8,
            0,
        ),
{
    let ghost m0 = mem@;
    let mut i: u64 = 0;
    while i < 8
        invariant
            i <= 8,
            mem@.len() == m0.len(),
            span_inside(0, m0.len(), tohost_addr, 8) ==> forall|j: int|
                0 <= j < m0.len() ==> #[trigger] mem@[j] == if tohost_addr <= j < tohost_addr + i {
                    0u8
                } else {
                    m0[j]
                },
        decreases 8 - i,
    {
        if tohost_addr <= u64::MAX - i {
            let _ = mem.write_byte(tohost_addr + i, 0);
        }
        i = i + 1;
    }
    proof {
        if span_inside(0, m0.len(), tohost_addr, 8) {
            assert forall|k: int| 0 <= k < 8 implies byte_of(0, k) == 0u8 by {
                assert(0u64 >> 8u64 == 0 && 0u64 >> 16u64 == 0 && 0u64 >> 24u64 == 0 && 0u64 >> 32u64 == 0
                    && 0u64 >> 40u64 == 0 && 0u64 >> 48u64 == 0 && 0u64 >> 56u64 == 0) by (bit_vector);
            }
            assert(mem@ =~= crate::memory::store_le(m0, tohost_addr as int, 8, 0));
        }
    }
}

/// Where an image declares its signature region.
#[derive(Debug, Clone, Copy, PartialEq, Eq, Structural)]
pub struct SignatureInfo {
    /// The guest address of the region.
    pub vaddr: u64,
    /// Its size in bytes.
    pub size: u64,
    /// Its offset in the image file.
    pub file_offset: u64,
}

/// How a configuration addresses image-declared metadata.
#[derive(Debug, Clone, Copy, PartialEq, Eq, Structural)]
pub enum AddressForm {
    /// Guest addresses are used unchanged.
    Bus,
    /// Guest addresses become offsets into an image buffer of `memory_size`
    /// bytes that starts at `base_addr`.
    Flat { base_addr: u64, memory_size: u64 },
}

/// The address a guest range `[guest_addr, guest_addr + len)` has in a form:
/// unchanged for the bus form; for the flat form the offset from the image
/// base, provided the address is not below the base, the range does not
/// overflow, and it ends within the image.
pub open spec fn resolve_spec(form: AddressForm, guest_addr: u64, len: u64) -> Option<u64> {
    match form {
        AddressForm::Bus => Some(guest_addr),
        AddressForm::Flat { base_addr, memory_size } => if guest_addr < base_addr {
            None
        } else if (guest_addr - base_addr) + len > u64::MAX {
            None
        } else if (guest_addr - base_addr) + len > memory_size {
            None
        } else {
            Some((guest_addr - base_addr) as u64)
        },
    }
}

/// The error text for a guest range `[guest_addr, guest_addr + len)`
/// that the flat form cannot address; `what` names the range.
pub open spec fn resolve_error_text(
    form: AddressForm,
    guest_addr: u64,
    len: u64,
    what: Seq<char>,
) -> Seq<char> {
    match form {
        AddressForm::Bus => Seq::empty(),
        AddressForm::Flat { base_addr, memory_size } => {
            let head = what + " address 0x"@ + hex_prefix(guest_addr, 16);
            if guest_addr < base_addr {
                head + " is below image base 0x"@ + hex_prefix(base_addr, 16)
            } else if (guest_addr - base_addr) + len > u64::MAX {
                head + " overlaps the end of the address space"@
            } else {
                head + " maps to flat offset 0x"@ + hex_prefix((guest_addr - base_addr) as u64, 16)
                    + ", outside the 0x"@ + hex_digits(memory_size) + "-byte image memory"@
            }
        },
    }
}

/// An `ExecutionError` whose text is `text`.
pub open spec fn execution_error_is(r: ExecutorError, text: Seq<char>) -> bool {
    r matches ExecutorError::ExecutionError(s) && s@ == text
}

impl AddressForm {
    /// Resolves a guest range into this form's address; an unaddressable
    /// range is an `ExecutionError` saying why, with `what` naming the range.
    pub fn resolve(self, guest_addr: u64, len: u64, what: &str) -> (r: Result<u64, ExecutorError>)
        ensures
            resolve_spec(self, guest_addr, len) matches Some(a) ==> r == Ok::<u64, ExecutorError>(a),
            resolve_spec(self, guest_addr, len) is None ==> (r matches Err(e) && execution_error_is(
                e,
                resolve_error_text(self, guest_addr, len, what@),
            )),
    {
        match self {
            AddressForm::Bus => Ok(guest_addr),
            AddressForm::Flat { base_addr, memory_size } => {
                let g = hex16(guest_addr);
                let t0 = join_text(what, " address 0x");
                let head = join_text(t0.as_str(), g.as_str());
                let offset = match guest_addr.checked_sub(base_addr) {
                    Some(o) => o,
                    None => {
                        let b = hex16(base_addr);
                        let t1 = join_text(head.as_str(), " is below image base 0x");
                        return Err(ExecutorError::ExecutionError(join_text(t1.as_str(), b.as_str())));
                    },
                };
                let end = match offset.checked_add(len) {
                    Some(e) => e,
                    None => {
                        return Err(
                            ExecutorError::ExecutionError(
                                join_text(head.as_str(), " overlaps the end of the address space"),
                            ),
                        );
                    },
                };
                if end > memory_size {
                    let o = hex16(offset);
                    let sz = hex_min(memory_size);
                    let t1 = join_text(head.as_str(), " maps to flat offset 0x");
                    let t2 = join_text(t1.as_str(), o.as_str());
                    let t3 = join_text(t2.as_str(), ", outside the 0x");
                    let t4 = join_text(t3.as_str(), sz.as_str());
                    return Err(ExecutorError::ExecutionError(join_text(t4.as_str(), "-byte image memory")));
                }
                Ok(offset)
            },
        }
    }
}

/// Where a loaded image declares its exit signal and signature region.
#[derive(Debug, Clone, Copy, PartialEq, Eq, Structural)]
pub struct ImagePlacement {
    /// The lowest load address of the image.
    pub base_addr: u64,
    /// The size of the image memory.
    pub memory_size: u64,
    /// The declared tohost guest address.
    pub tohost: Option<u64>,
    /// The declared signature region.
    pub signature: Option<SignatureInfo>,
}

/// The flat address form of a placement.
pub open spec fn flat_form(p: ImagePlacement) -> AddressForm {
    AddressForm::Flat { base_addr: p.base_addr, memory_size: p.memory_size }
}

impl Default for ImagePlacement {
    /// No image: base 0, size 0, no metadata.
    fn default() -> (r: Self)
        ensures
            r.base_addr == 0,
            r.memory_size == 0,
            r.tohost is None,
            r.signature is None,
    {
        ImagePlacement { base_addr: 0, memory_size: 0, tohost: None, signature: None }
    }
}

impl ImagePlacement {
    /// The placement of an image of `memory_size` bytes at `base_addr`.
    pub fn new(base_addr: u64, memory_size: usize, tohost: Option<u64>, signature: Option<SignatureInfo>) -> (r:
        Self)
        ensures
            r.base_addr == base_addr,
            r.memory_size == memory_size,
            r.tohost == tohost,
            r.signature == signature,
    {
        ImagePlacement { base_addr, memory_size: memory_size as u64, tohost, signature }
    }

    /// The flat address form of this image.
    pub fn address_form(&self) -> (r: AddressForm)
        ensures
            r == flat_form(*self),
    {
        AddressForm::Flat { base_addr: self.base_addr, memory_size: self.memory_size }
    }

    /// The declared tohost doubleword resolved in `form`: `None` when none
    /// is declared, an error when it cannot be addressed.
    pub fn tohost(&self, form: AddressForm) -> (r: Result<Option<u64>, ExecutorError>)
        ensures
            self.tohost is None ==> r == Ok::<Option<u64>, ExecutorError>(None),
            self.tohost matches Some(g) ==> match resolve_spec(form, g, 8) {
                Some(a) => r == Ok::<Option<u64>, ExecutorError>(Some(a)),
                None => r matches Err(e) && execution_error_is(
                    e,
                    resolve_error_text(form, g, 8, "ELF tohost"@),
                ),
            },
    {
        match self.tohost {
            None => Ok(None),
            Some(addr) => match form.resolve(addr, 8, "ELF tohost") {
                Ok(a) => Ok(Some(a)),
                Err(e) => Err(e),
            },
        }
    }

    /// The address of a signature region in `form`.
    pub fn signature_address(&self, info: &SignatureInfo, form: AddressForm) -> (r: Result<
        u64,
        ExecutorError,
    >)
        ensures
            resolve_spec(form, info.vaddr, info.size) matches Some(a) ==> r == Ok::<
                u64,
                ExecutorError,
            >(a),
            resolve_spec(form, info.vaddr, info.size) is None ==> (r matches Err(e)
                && execution_error_is(e, resolve_error_text(form, info.vaddr, info.size, "ELF signature"@))),
    {
        form.resolve(info.vaddr, info.size, "ELF signature")
    }

    /// The declared signature region.
    pub fn signature_info(&self) -> (r: Option<&SignatureInfo>)
        ensures
            match self.signature {
                Some(s) => r matches Some(x) && *x == s,
                None => r is None,
            },
    {
        match &self.signature {
            Some(s) => Some(s),
            None => None,
        }
    }

    /// The declared tohost guest address.
    pub fn tohost_guest(&self) -> (r: Option<u64>)
        ensures
            r == self.tohost,
    {
        self.tohost
    }
}

/// The bytes of a little-endian doubleword are the bytes it was read from.
proof fn lemma_le64_bytes(b: Seq<u8>, a: int)
    requires
        0 <= a,
        a + 8 <= b.len(),
    ensures
        forall|k: int| 0 <= k < 8 ==> #[trigger] byte_of(le64(b, a), k) == b[a + k],
{
    let v = le64(b, a);
    let (b0, b1, b2, b3, b4, b5, b6, b7) = (b[a], b[a + 1], b[a + 2], b[a + 3], b[a + 4], b[a + 5], b[a + 6], b[a + 7]);
    assert(v as u8 == b0 && (v >> 8u64) as u8 == b1 && (v >> 16u64) as u8 == b2 && (v >> 24u64) as u8
        == b3 && (v >> 32u64) as u8 == b4 && (v >> 40u64) as u8 == b5 && (v >> 48u64) as u8 == b6 && (v
        >> 56u64) as u8 == b7) by (bit_vector)
        requires
            v == (b0 as u64) | ((b1 as u64) << 8u64) | ((b2 as u64) << 16u64) | ((b3 as u64) << 24u64) | ((
            b4 as u64) << 32u64) | ((b5 as u64) << 40u64) | ((b6 as u64) << 48u64) | ((b7 as u64)
                << 56u64),
    ;
}

/// What reading a signature region gives: an empty vector for an empty
/// region, the region's bytes when it lies inside memory, an error otherwise.
pub open spec fn signature_read(m: Seq<u8>, info: SignatureInfo, r: Result<Option<Vec<u8>>, ExecutorError>) -> bool {
    if info.size == 0 {
        r matches Ok(Some(v)) && v@.len() == 0
    } else if span_inside(0, m.len(), info.vaddr, info.size as nat) {
        r matches Ok(Some(v)) && v@ == m.subrange(info.vaddr as int, info.vaddr + info.size)
    } else {
        let f = (if info.vaddr < m.len() {
            m.len()
        } else {
            info.vaddr as nat
        }) as u64;
        r matches Err(e) && execution_error_is(e, signature_byte_error_text(f))
    }
}

/// The error text for a signature byte at `a` that cannot be read.
pub open spec fn signature_byte_error_text(a: u64) -> Seq<char> {
    "Failed to read signature byte at 0x"@ + hex_prefix(a, 16) + ": "@ + memory_error_text(
        MemoryError::InvalidAddress(a),
    )
}

fn signature_byte_error(a: u64) -> (r: ExecutorError)
    ensures
        execution_error_is(r, signature_byte_error_text(a)),
{
    let ah = hex16(a);
    let et = MemoryError::InvalidAddress(a).to_display_string();
    let t0 = join_text("Failed to read signature byte at 0x", ah.as_str());
    let t1 = join_text(t0.as_str(), ": ");
    ExecutorError::ExecutionError(join_text(t1.as_str(), et.as_str()))
}

/// Reads the signature region of an image: `None` when none is declared, an
/// empty vector for an empty region, the region's bytes when it lies inside
/// memory, and an error otherwise.
pub fn dump_signature(mem: &SimpleMemory, sig_info: Option<&SignatureInfo>) -> (r: Result<
    Option<Vec<u8>>,
    ExecutorError,
>)
    ensures
        sig_info is None ==> (r matches Ok(None)),
        sig_info matches Some(info) ==> signature_read(mem@, *info, r),
{
    let info = match sig_info {
        Some(info) => info,
        None => return Ok(None),
    };
    let addr = info.vaddr;
    let size = info.size;
    if size == 0 {
        return Ok(Some(Vec::new()));
    }
    let _len = mem.size();
    let mut data: Vec<u8> = Vec::new();
    let mut n: u64 = 0;
    let mut fell_back = false;
    while n < size && !fell_back
        invariant
            sig_info == Some(info),
            n <= size,
            size == info.size,
            addr == info.vaddr,
            mem@.len() == _len,
            data@.len() == n,
            n > 0 ==> addr + n <= mem@.len(),
            forall|j: int| 0 <= j < n ==> #[trigger] data@[j] == mem@[addr + j],
        decreases (size - n) * 2 + if fell_back {
            0int
        } else {
            1int
        },
    {
        let cur = addr + n;
        if size - n >= 8 && cur % 8 == 0 {
            match mem.read_dword(cur) {
                Ok(value) => {
                    proof {
                        lemma_le64_bytes(mem@, cur as int);
                    }
                    let mut k: u64 = 0;
                    while k < 8
                        invariant
                            k <= 8,
                            cur + 8 <= mem@.len(),
                            cur == addr + n,
                            forall|q: int| 0 <= q < 8 ==> #[trigger] byte_of(value, q) == mem@[cur + q],
                            data@.len() == n + k,
                            forall|j: int| 0 <= j < n + k ==> #[trigger] data@[j] == mem@[addr + j],
                        decreases 8 - k,
                    {
                        let shift = k * 8;
                        let b = (value >> shift) as u8;
                        proof {
                            assert(b == byte_of(value, k as int)) by (bit_vector)
                                requires
                                    k < 8,
                                    shift == k * 8,
                                    b == (value >> shift) as u8,
                            ;
                        }
                        data.push(b);
                        k = k + 1;
                    }
                    n = n + 8;
                },
                Err(_) => {
                    fell_back = true;
                },
            }
        } else {
            match mem.read_byte(cur) {
                Ok(b) => {
                    data.push(b);
                    n = n + 1;
                },
                Err(_) => {
                    return Err(signature_byte_error(cur));
                },
            }
        }
    }
    while n < size
        invariant
            sig_info == Some(info),
            n <= size,
            size == info.size,
            addr == info.vaddr,
            mem@.len() == _len,
            data@.len() == n,
            n > 0 ==> addr + n <= mem@.len(),
            forall|j: int| 0 <= j < n ==> #[trigger] data@[j] == mem@[addr + j],
        decreases size - n,
    {
        let cur = addr + n;
        match mem.read_byte(cur) {
            Ok(b) => {
                data.push(b);
                n = n + 1;
            },
            Err(_) => {
                return Err(signature_byte_error(cur));
            },
        }
    }
    assert(data@ =~= mem@.subrange(addr as int, addr + size));
    Ok(Some(data))
}

/// The error text of a read of `size > 0` bytes at `addr` from a memory of
/// `len` bytes that is not wholly inside it: the range overflows, or the
/// first byte outside the memory cannot be read.
pub open spec fn read_mem_error_text(len: nat, addr: u64, size: nat) -> Seq<char> {
    if addr + (size - 1) > u64::MAX {
        "Memory read error: address 0x"@ + hex_prefix(addr, 16) + " size "@ + dec_digits(size as u64)
            + " overflows the address space"@
    } else {
        let f = (if addr < len {
            len
        } else {
            addr as nat
        }) as u64;
        "Memory read error at 0x"@ + hex_prefix(f, 16) + ": "@ + memory_error_text(
            MemoryError::InvalidAddress(f),
        )
    }
}

/// How an executor error reads.
pub open spec fn executor_error_text(e: ExecutorError) -> Seq<char> {
    match e {
        ExecutorError::ElfLoadError(e) => "ELF loading failed: "@ + elf_error_text(e),
        ExecutorError::MemoryAllocationFailed => "Memory allocation failed"@,
        ExecutorError::Timeout(n) => "Execution timeout after "@ + dec_digits(n) + " cycles"@,
        ExecutorError::ExecutionError(s) => "Execution error: "@ + s@,
        ExecutorError::InvalidTohostAddress => "Invalid tohost address"@,
    }
}

impl ExecutorError {
    /// The text of this error.
    pub fn to_display_string(&self) -> (r: String)
        ensures
            r@ == executor_error_text(*self),
    {
        match self {
            ExecutorError::ElfLoadError(e) => {
                let t = e.to_display_string();
                join_text("ELF loading failed: ", t.as_str())
            },
            ExecutorError::MemoryAllocationFailed => {
                let r = join_text("Memory allocation failed", "");
                proof {
                    reveal_strlit("");
                    assert(r@ =~= "Memory allocation failed"@);
                }
                r
            },
            ExecutorError::Timeout(n) => {
                let d = dec_min(*n);
                let t = join_text("Execution timeout after ", d.as_str());
                join_text(t.as_str(), " cycles")
            },
            ExecutorError::ExecutionError(s) => join_text("Execution error: ", s.as_str()),
            ExecutorError::InvalidTohostAddress => {
                let r = join_text("Invalid tohost address", "");
                proof {
                    reveal_strlit("");
                    assert(r@ =~= "Invalid tohost address"@);
                }
                r
            },
        }
    }
}

/// The number of bytes of a write of `len` bytes at `addr` that fall inside
/// a memory of `size` bytes, counted from the start of the write.
pub open spec fn writable_prefix(size: nat, addr: u64, len: nat) -> int {
    if addr >= size {
        0
    } else if size - addr < len {
        size - addr
    } else {
        len as int
    }
}

/// Writes `data` at `addr` byte by byte, stopping at the first byte outside memory.
fn write_prefix(mem: &mut SimpleMemory, addr: u64, data: &[u8]) -> (r: Result<(), ExecutorError>)
    ensures
        ({
            let k = writable_prefix(old(mem)@.len(), addr, data@.len());
            &&& final(mem)@ == store_bytes(old(mem)@, addr as int, data@.subrange(0, k))
            &&& k == data@.len() ==> r is Ok
            &&& k < data@.len() ==> (r matches Err(e) && execution_error_is(
                e,
                "Memory write error: "@ + memory_error_text(MemoryError::InvalidAddress((addr + k) as u64)),
            ))
        }),
{
    let ghost m0 = mem@;
    let _len = mem.size();
    let n = data.len();
    let mut i: usize = 0;
    while i < n
        invariant
            m0 == old(mem)@,
            n == data@.len(),
            i <= n,
            i <= writable_prefix(m0.len(), addr, n as nat),
            mem@.len() == m0.len(),
            mem@.len() == _len,
            forall|j: int|
                0 <= j < m0.len() ==> #[trigger] mem@[j] == if addr <= j < addr + i {
                    data@[j - addr]
                } else {
                    m0[j]
                },
        decreases n - i,
    {
        let at = addr + i as u64;
        match mem.write_byte(at, data[i]) {
            Ok(()) => {},
            Err(_) => {
                assert(i as int == writable_prefix(m0.len(), addr, n as nat));
                assert(store_bytes(m0, addr as int, data@.subrange(0, i as int)) =~= mem@);
                let text = MemoryError::InvalidAddress(at).to_display_string();
                return Err(ExecutorError::ExecutionError(join_text("Memory write error: ", text.as_str())));
            },
        }
        i = i + 1;
    }
    assert(store_bytes(m0, addr as int, data@.subrange(0, n as int)) =~= mem@);
    Ok(())
}

/// The short description of an instruction failure.
pub open spec fn execute_error_text(e: ExecuteError) -> Seq<char> {
    match e {
        ExecuteError::InvalidOperation => "invalid operation"@,
        ExecuteError::IllegalInstruction => "illegal instruction"@,
        ExecuteError::Ecall => "environment call"@,
        ExecuteError::Ebreak => "breakpoint"@,
        ExecuteError::MisalignedAccess(_, _) => "misaligned access"@,
        ExecuteError::MemoryError(_) => "memory access failed"@,
        ExecuteError::CsrError(_) => "CSR access failed"@,
        ExecuteError::DecodeError(_) => "instruction could not be decoded"@,
    }
}

/// A short description of an instruction failure.
pub fn describe_execute_error(e: &ExecuteError) -> (r: &'static str)
    ensures
        r@ == execute_error_text(*e),
{
    match e {
        ExecuteError::InvalidOperation => "invalid operation",
        ExecuteError::IllegalInstruction => "illegal instruction",
        ExecuteError::Ecall => "environment call",
        ExecuteError::Ebreak => "breakpoint",
        ExecuteError::MisalignedAccess(_, _) => "misaligned access",
        ExecuteError::MemoryError(_) => "memory access failed",
        ExecuteError::CsrError(_) => "CSR access failed",
        ExecuteError::DecodeError(_) => "instruction could not be decoded",
    }
}

/// The exit-signal offset a simulator polls: an explicit offset, else the
/// image's declared tohost resolved in the flat form, else the default.
/// `None` when the declared tohost cannot be addressed.
pub open spec fn tohost_offset_spec(manual: Option<u64>, image: ImagePlacement) -> Option<u64> {
    match manual {
        Some(a) => Some(a),
        None => match image.tohost {
            None => Some(DEFAULT_TOHOST),
            Some(g) => resolve_spec(flat_form(image), g, 8),
        },
    }
}

/// The bytes of an image's signature region in memory `m`.
pub open spec fn signature_bytes(image: ImagePlacement, m: Seq<u8>) -> Seq<u8> {
    let info = image.signature->0;
    let off = resolve_spec(flat_form(image), info.vaddr, info.size)->0;
    m.subrange(off as int, off + info.size)
}

/// The artifact bytes of an image: empty for an empty region, else the
/// region's bytes.
pub open spec fn artifact_data(image: ImagePlacement, m: Seq<u8>) -> Seq<u8> {
    if image.signature->0.size == 0 {
        Seq::empty()
    } else {
        signature_bytes(image, m)
    }
}

/// Whether an image's signature artifact can be produced: no region, an
/// empty region, or a region that resolves into memory.
pub open spec fn artifact_ok(image: ImagePlacement, m: Seq<u8>) -> bool {
    match image.signature {
        None => true,
        Some(info) => info.size == 0 || match resolve_spec(flat_form(image), info.vaddr, info.size) {
            Some(off) => span_inside(0, m.len(), off, info.size as nat),
            None => false,
        },
    }
}

fn artifact_text(head: &str, tail: &str) -> (r: String)
    ensures
        r@ == head@ + tail@,
        tail@ == ""@ ==> r@ == head@,
        forall|a: Seq<char>, b: Seq<char>| tail@ == a + b ==> r@ == head@ + a + b,
{
    let r = join_text(head, tail);
    proof {
        reveal_strlit("");
        assert(tail@ == ""@ ==> r@ =~= head@);
        assert forall|a: Seq<char>, b: Seq<char>| tail@ == a + b implies r@ == head@ + a + b by {
            assert(head@ + (a + b) =~= head@ + a + b);
        }
    }
    r
}

/// Why an image's signature artifact cannot be produced, if it cannot.
pub open spec fn artifact_error(image: ImagePlacement, m: Seq<u8>) -> Option<Seq<char>> {
    match image.signature {
        None => None,
        Some(info) => if info.size == 0 {
            None
        } else {
            match resolve_spec(flat_form(image), info.vaddr, info.size) {
                None => Some(
                    "Signature artifact unavailable: "@ + "Execution error: "@ + resolve_error_text(
                        flat_form(image),
                        info.vaddr,
                        info.size,
                        "ELF signature"@,
                    ),
                ),
                Some(off) => if info.size > usize::MAX {
                    Some("Signature artifact unavailable: region too large"@)
                } else if span_inside(0, m.len(), off, info.size as nat) {
                    None
                } else {
                    Some(
                        "Signature artifact unavailable: "@ + "Execution error: "@ + read_mem_error_text(
                            m.len(),
                            off,
                            info.size as nat,
                        ),
                    )
                },
            }
        },
    }
}

/// The text an optional string holds.
pub open spec fn text_of(o: Option<String>) -> Option<Seq<char>> {
    match o {
        Some(s) => Some(s@),
        None => None,
    }
}

/// A primary error and an artifact problem reported together: either alone,
/// or both joined by "; ".
pub open spec fn combine_errors(primary: Option<Seq<char>>, artifact: Option<Seq<char>>) -> Option<
    Seq<char>,
> {
    match (primary, artifact) {
        (None, None) => None,
        (Some(p), None) => Some(p),
        (None, Some(a)) => Some(a),
        (Some(p), Some(a)) => Some(p + "; "@ + a),
    }
}

/// What the signature artifact of an image is: the guest address, and
/// either the bytes (empty for an empty region) or why they are missing.
pub open spec fn artifact_spec(
    image: ImagePlacement,
    m: Seq<u8>,
    r: (Option<u64>, Option<Vec<u8>>, Option<String>),
) -> bool {
    &&& text_of(r.2) == artifact_error(image, m)
    &&& match image.signature {
        None => r.0 is None && r.1 is None,
        Some(info) => {
            &&& r.0 == Some(info.vaddr)
            &&& artifact_ok(image, m) ==> (r.1 matches Some(v) && v@ == artifact_data(image, m))
            &&& !artifact_ok(image, m) ==> r.1 is None
        },
    }
}

/// What finishing a run reports over the core `c`: the given cycle count,
/// exit code and timeout flag, the core's pc, the image's signature
/// address; as error the run's own (`primary`) together with any problem
/// with the signature artifact; and the signature bytes when they can be
/// read.
pub open spec fn reported(
    res: ExecutionResult,
    c: RiscvCore,
    image: ImagePlacement,
    cycles: u64,
    code: u32,
    timed_out: bool,
    primary: Option<Seq<char>>,
) -> bool {
    &&& res.exit_code == code
    &&& res.cycles == cycles
    &&& res.timed_out == timed_out
    &&& res.final_pc == c.state_spec().pc
    &&& res.signature_addr == (match image.signature {
        Some(s) => Some(s.vaddr),
        None => None::<u64>,
    })
    &&& text_of(res.error) == combine_errors(primary, artifact_error(image, c.memory_spec()@))
    &&& artifact_ok(image, c.memory_spec()@) ==> match image.signature {
        Some(s) => (res.signature_data matches Some(v) && v@ == artifact_data(
            image,
            c.memory_spec()@,
        )),
        None => res.signature_data is None,
    }
}

/// The exit code the poll of flat offset `t` finds in the core's memory:
/// none when the doubleword cannot be read.
pub open spec fn poll_exit(c: RiscvCore, t: u64) -> Option<u32> {
    match checked(access_check(c.memory_spec()@.len(), t, 8), le64(c.memory_spec()@, t as int)) {
        Ok(v) => exit_code_of(v),
        Err(_) => None,
    }
}

/// One retired instruction takes core `c` to core `n`.
pub open spec fn step_ok(c: RiscvCore, n: RiscvCore) -> bool {
    &&& n.base_spec() == c.base_spec()
    &&& step_post(
        c.state_spec(),
        c.memory_spec(),
        c.base_spec(),
        n.state_spec(),
        n.memory_spec(),
        Ok(()),
    )
}

/// `trace` starts at `c0`, every instruction along it retired, and no poll
/// after one found an exit signal at `t`.
pub open spec fn quiet_run(trace: Seq<RiscvCore>, c0: RiscvCore, t: u64) -> bool {
    &&& trace.len() >= 1
    &&& trace[0] == c0
    &&& forall|i: int|
        0 <= i < trace.len() - 1 ==> #[trigger] step_ok(trace[i], trace[i + 1]) && poll_exit(
            trace[i + 1],
            t,
        ) is None
}

/// What a run with `budget` instructions allowed and the exit signal polled
/// at flat offset `t` does, from core `c0` to core `c1`: some quiet run of
/// `k <= budget` instructions comes first; then either the budget is spent
/// (`k == budget`, a timeout with exit code 1 and "Timeout after <budget>
/// cycles"), or the next instruction fails (exit code 1, and the failure's
/// text behind "Execution error: Execution error: "), or the next
/// instruction retires and the poll after it finds an exit signal, whose
/// code is reported after `k + 1` instructions and whose doubleword is then
/// cleared.
pub open spec fn run_outcome(
    budget: u64,
    t: u64,
    c0: RiscvCore,
    c1: RiscvCore,
    image: ImagePlacement,
    res: ExecutionResult,
) -> bool {
    exists|trace: Seq<RiscvCore>|
        #[trigger] quiet_run(trace, c0, t) && trace.len() - 1 <= budget && {
            let k = (trace.len() - 1) as u64;
            let ck = trace.last();
            ||| k == budget && c1 == ck && reported(
                res,
                c1,
                image,
                budget,
                1,
                true,
                Some("Timeout after "@ + dec_digits(budget) + " cycles"@),
            )
            ||| k < budget && c1.base_spec() == ck.base_spec() && (exists|e: Result<(), ExecuteError>|
                e is Err && #[trigger] step_post(
                    ck.state_spec(),
                    ck.memory_spec(),
                    ck.base_spec(),
                    c1.state_spec(),
                    c1.memory_spec(),
                    e,
                ) && reported(
                    res,
                    c1,
                    image,
                    k,
                    1,
                    false,
                    Some("Execution error: "@ + "Execution error: "@ + execute_error_text(e->Err_0)),
                ))
            ||| k < budget && (exists|cn: RiscvCore|
                #[trigger] step_ok(ck, cn) && poll_exit(cn, t) == Some(res.exit_code)
                    && c1.state_spec() == cn.state_spec() && c1.base_spec() == cn.base_spec()
                    && c1.memory_spec()@ == store_le(cn.memory_spec()@, t as int, 8, 0) && reported(
                    res,
                    c1,
                    image,
                    (k + 1) as u64,
                    res.exit_code,
                    false,
                    None,
                ))
        }
}

/// Why an image placement cannot be installed, if it cannot: a declared
/// tohost the flat image cannot address, or whose offset is not eight-byte
/// aligned.
pub open spec fn placement_error(image: ImagePlacement) -> Option<Seq<char>> {
    match image.tohost {
        None => None,
        Some(g) => match resolve_spec(flat_form(image), g, 8) {
            None => Some(resolve_error_text(flat_form(image), g, 8, "ELF tohost"@)),
            Some(off) => if off % 8 != 0 {
                Some(
                    "ELF tohost address 0x"@ + hex_prefix(g, 16) + " maps to flat offset 0x"@
                        + hex_prefix(off, 16) + ", which the exit poll cannot read eight-byte aligned"@,
                )
            } else {
                None
            },
        },
    }
}

/// The error a run reports when the image's declared tohost cannot be
/// addressed.
pub open spec fn tohost_error_text(image: ImagePlacement) -> Seq<char> {
    resolve_error_text(flat_form(image), image.tohost->0, 8, "ELF tohost"@)
}

/// A simulator over one flat RAM image.  Guest addresses of the loaded image
/// are flat offsets plus the image base; `read_mem`, `write_mem` and
/// `set_tohost` take flat offsets.
pub struct RiscVSimulator {
    core: RiscvCore,
    manual_tohost: Option<u64>,
    image: ImagePlacement,
    max_cycles: u64,
    verbose: bool,
}

impl RiscVSimulator {
    /// The core.
    pub closed spec fn core_spec(&self) -> RiscvCore {
        self.core
    }

    /// The explicit tohost offset.
    pub closed spec fn manual_tohost_spec(&self) -> Option<u64> {
        self.manual_tohost
    }

    /// The loaded image's placement.
    pub closed spec fn image_spec(&self) -> ImagePlacement {
        self.image
    }

    /// The default instruction budget.
    pub closed spec fn max_cycles_spec(&self) -> u64 {
        self.max_cycles
    }

    /// Whether diagnostics are wanted.
    pub closed spec fn verbose_spec(&self) -> bool {
        self.verbose
    }

    /// A simulator with `mem_size` zero bytes and a core in the reset state.
    pub fn new(mem_size: usize) -> (r: Self)
        ensures
            r.core_spec().memory_spec()@ == Seq::new(mem_size as nat, |i: int| 0u8),
            r.core_spec().state_spec().pc == 0,
            r.core_spec().base_spec() == 0,
            r.manual_tohost_spec() is None,
            r.image_spec() == (ImagePlacement { base_addr: 0, memory_size: 0, tohost: None, signature: None }),
            r.max_cycles_spec() == DEFAULT_MAX_CYCLES,
    {
        let memory = SimpleMemory::new(mem_size);
        RiscVSimulator {
            core: RiscvCore::new(memory),
            manual_tohost: None,
            image: ImagePlacement::default(),
            max_cycles: DEFAULT_MAX_CYCLES,
            verbose: false,
        }
    }

    /// The offset polled for the exit signal.
    fn tohost_offset(&self) -> (r: Result<u64, ExecutorError>)
        ensures
            tohost_offset_spec(self.manual_tohost, self.image) matches Some(a) ==> r == Ok::<
                u64,
                ExecutorError,
            >(a),
            tohost_offset_spec(self.manual_tohost, self.image) is None ==> (r matches Err(e)
                && execution_error_is(e, tohost_error_text(self.image))),
    {
        match self.manual_tohost {
            Some(addr) => Ok(addr),
            None => match self.image.tohost(self.image.address_form()) {
                Ok(Some(a)) => Ok(a),
                Ok(None) => Ok(DEFAULT_TOHOST),
                Err(e) => Err(e),
            },
        }
    }

    /// Sets whether diagnostics are wanted.
    pub fn set_verbose(&mut self, verbose: bool)
        ensures
            final(self).core_spec().state_spec() == old(self).core_spec().state_spec(),
            final(self).core_spec().memory_spec() == old(self).core_spec().memory_spec(),
            final(self).core_spec().base_spec() == old(self).core_spec().base_spec(),
            final(self).manual_tohost_spec() == old(self).manual_tohost_spec(),
            final(self).image_spec() == old(self).image_spec(),
            final(self).max_cycles_spec() == old(self).max_cycles_spec(),
            final(self).verbose_spec() == verbose,
            final(self).core_spec().verbose_spec() == verbose,
    {
        self.verbose = verbose;
        self.core.set_verbose(verbose);
    }

    /// Sets the default instruction budget.
    pub fn set_max_cycles(&mut self, cycles: u64)
        ensures
            final(self).max_cycles_spec() == cycles,
            final(self).core_spec() == old(self).core_spec(),
            final(self).manual_tohost_spec() == old(self).manual_tohost_spec(),
            final(self).image_spec() == old(self).image_spec(),
    {
        self.max_cycles = cycles;
    }

    /// Sets the flat offset polled for the exit signal; it overrides the
    /// image's declared tohost.
    pub fn set_tohost(&mut self, addr: u64)
        ensures
            final(self).manual_tohost_spec() == Some(addr),
            final(self).core_spec() == old(self).core_spec(),
            final(self).image_spec() == old(self).image_spec(),
            final(self).max_cycles_spec() == old(self).max_cycles_spec(),
    {
        self.manual_tohost = Some(addr);
    }

    /// Sets the exit-signal location by its guest address: the address is
    /// resolved against the loaded image (an error, changing nothing, when
    /// the image cannot address its doubleword) and the flat offset
    /// overrides the image's declared tohost.
    pub fn set_tohost_guest(&mut self, addr: u64) -> (r: Result<(), ExecutorError>)
        ensures
            match resolve_spec(flat_form(old(self).image_spec()), addr, 8) {
                Some(off) => r is Ok && final(self).manual_tohost_spec() == Some(off),
                None => (r matches Err(e) && execution_error_is(
                    e,
                    resolve_error_text(flat_form(old(self).image_spec()), addr, 8, "tohost"@),
                )) && final(self).manual_tohost_spec() == old(self).manual_tohost_spec(),
            },
            final(self).core_spec() == old(self).core_spec(),
            final(self).image_spec() == old(self).image_spec(),
            final(self).max_cycles_spec() == old(self).max_cycles_spec(),
    {
        match self.image.address_form().resolve(addr, 8, "tohost") {
            Ok(off) => {
                self.manual_tohost = Some(off);
                Ok(())
            },
            Err(e) => Err(e),
        }
    }

    /// Executes one instruction; a failure is reported as an `ExecutionError`.
    pub fn step(&mut self) -> (r: Result<(), ExecutorError>)
        ensures
            exists|e: Result<(), ExecuteError>|
                {
                    &&& #[trigger] step_post(
                        old(self).core_spec().state_spec(),
                        old(self).core_spec().memory_spec(),
                        old(self).core_spec().base_spec(),
                        final(self).core_spec().state_spec(),
                        final(self).core_spec().memory_spec(),
                        e,
                    )
                    &&& (e is Ok <==> r is Ok)
                    &&& (e matches Err(ee) ==> (r matches Err(ExecutorError::ExecutionError(s))
                        && s@ == execute_error_text(ee)))
                },
            final(self).core_spec().base_spec() == old(self).core_spec().base_spec(),
            final(self).manual_tohost_spec() == old(self).manual_tohost_spec(),
            final(self).image_spec() == old(self).image_spec(),
            final(self).max_cycles_spec() == old(self).max_cycles_spec(),
    {
        match self.core.step() {
            Ok(()) => Ok(()),
            Err(e) => Err(
                ExecutorError::ExecutionError(describe_execute_error(&e).to_owned()),
            ),
        }
    }

    /// The loaded image's signature artifact: its guest address, its bytes
    /// read at the flat offset, or a description of why they could not be
    /// read.
    fn signature_artifact(&self) -> (r: (Option<u64>, Option<Vec<u8>>, Option<String>))
        ensures
            artifact_spec(self.image, self.core.memory_spec()@, r),
    {
        let info = match self.image.signature_info() {
            Some(info) => info,
            None => return (None, None, None),
        };
        let addr = info.vaddr;
        let size = info.size;
        if size == 0 {
            let v: Vec<u8> = Vec::new();
            assert(v@ =~= Seq::<u8>::empty());
            return (Some(addr), Some(v), None);
        }
        let _len = self.core.memory().size();
        match self.image.signature_address(info, self.image.address_form()) {
            Ok(offset) => {
                if size > usize::MAX as u64 {
                    return (
                        Some(addr),
                        None,
                        Some(artifact_text("Signature artifact unavailable: region too large", "")),
                    );
                }
                match self.read_mem(offset, size as usize) {
                    Ok(bytes) => (Some(addr), Some(bytes), None),
                    Err(e) => {
                        let t = e.to_display_string();
                        (Some(addr), None, Some(artifact_text("Signature artifact unavailable: ", t.as_str())))
                    },
                }
            },
            Err(e) => {
                let t = e.to_display_string();
                (Some(addr), None, Some(artifact_text("Signature artifact unavailable: ", t.as_str())))
            },
        }
    }

    /// A result from already-observed facts, with the signature artifact;
    /// an artifact problem is added to the error.
    fn finish(&self, cycles: u64, exit_code: u32, timed_out: bool, error: Option<String>) -> (r:
        ExecutionResult)
        ensures
            reported(r, self.core, self.image, cycles, exit_code, timed_out, text_of(error)),
    {
        let (signature_addr, signature_data, artifact_error) = self.signature_artifact();
        let error = match (error, artifact_error) {
            (primary, None) => primary,
            (None, Some(artifact)) => Some(artifact),
            (Some(primary), Some(artifact)) => {
                let tail = join_text("; ", artifact.as_str());
                let both = join_text(primary.as_str(), tail.as_str());
                assert(both@ =~= primary@ + "; "@ + artifact@);
                Some(both)
            },
        };
        ExecutionResult {
            exit_code,
            cycles,
            final_pc: self.core.state().pc,
            timed_out,
            error,
            signature_addr,
            signature_data,
        }
    }

    /// Runs until the guest signals its exit, an instruction fails, or the
    /// budget (`max_cycles`, else the configured default) is spent.  After
    /// every retired instruction the tohost doubleword is read; an exit
    /// signal there ends the run with its code and the doubleword is
    /// cleared.  A zero budget executes nothing and reports a timeout.
    pub fn run(&mut self, max_cycles: Option<u64>) -> (r: Result<ExecutionResult, ExecutorError>)
        ensures
            final(self).image_spec() == old(self).image_spec(),
            final(self).manual_tohost_spec() == old(self).manual_tohost_spec(),
            final(self).max_cycles_spec() == old(self).max_cycles_spec(),
            final(self).core_spec().base_spec() == old(self).core_spec().base_spec(),
            tohost_offset_spec(old(self).manual_tohost_spec(), old(self).image_spec()) is None ==> ((r matches Err(
                e,
            ) && execution_error_is(e, tohost_error_text(old(self).image_spec())))
                && final(self).core_spec() == old(self).core_spec()),
            tohost_offset_spec(old(self).manual_tohost_spec(), old(self).image_spec()) matches Some(t)
                ==> (r matches Ok(res) && run_outcome(
                match max_cycles {
                    Some(m) => m,
                    None => old(self).max_cycles_spec(),
                },
                t,
                old(self).core_spec(),
                final(self).core_spec(),
                final(self).image_spec(),
                res,
            )),
    {
        let budget = match max_cycles {
            Some(m) => m,
            None => self.max_cycles,
        };
        let tohost = match self.tohost_offset() {
            Ok(t) => t,
            Err(e) => return Err(e),
        };
        let ghost core0 = self.core;
        let ghost mut trace = seq![core0];
        let mut cycles: u64 = 0;
        while cycles < budget
            invariant
                tohost_offset_spec(self.manual_tohost, self.image) == Some(tohost),
                budget == (match max_cycles {
                    Some(m) => m,
                    None => old(self).max_cycles,
                }),
                cycles <= budget,
                self.image == old(self).image,
                self.manual_tohost == old(self).manual_tohost,
                self.max_cycles == old(self).max_cycles,
                self.core.base_spec() == core0.base_spec(),
                core0 == old(self).core,
                quiet_run(trace, core0, tohost),
                trace.len() == cycles + 1,
                trace.last() == self.core,
            decreases budget - cycles,
        {
            let ghost ck = self.core;
            match self.step() {
                Ok(()) => {
                    cycles = cycles + 1;
                },
                Err(e) => {
                    let inner = e.to_display_string();
                    let msg = join_text("Execution error: ", inner.as_str());
                    let res = self.finish(cycles, 1, false, Some(msg));
                    proof {
                        let e2 = choose|e2: Result<(), ExecuteError>|
                            #[trigger] step_post(
                                ck.state_spec(),
                                ck.memory_spec(),
                                ck.base_spec(),
                                self.core.state_spec(),
                                self.core.memory_spec(),
                                e2,
                            ) && (e2 is Ok <==> false) && (e2 matches Err(ee) ==> (e matches ExecutorError::ExecutionError(s)
                                && s@ == execute_error_text(ee)));
                        assert(e2 is Err);
                        assert(msg@ =~= "Execution error: "@ + "Execution error: "@ + execute_error_text(
                            e2->Err_0,
                        ));
                        assert(quiet_run(trace, core0, tohost));
                    }
                    return Ok(res);
                },
            }
            let ghost cn = self.core;
            proof {
                let e2 = choose|e2: Result<(), ExecuteError>|
                    #[trigger] step_post(
                        ck.state_spec(),
                        ck.memory_spec(),
                        ck.base_spec(),
                        cn.state_spec(),
                        cn.memory_spec(),
                        e2,
                    ) && (e2 is Ok <==> true);
                match e2 {
                    Ok(u) => {
                        assert(u == ());
                        assert(e2 == Ok::<(), ExecuteError>(()));
                    },
                    Err(_) => {},
                }
                assert(step_ok(ck, cn));
            }
            let observed = self.core.memory().read_dword(tohost);
            match observed {
                Ok(value) => {
                    match try_extract_exit_code(value) {
                        Some(code) => {
                            let ghost mb = self.core.memory_spec()@;
                            clear_tohost(self.core.memory_mut(), tohost);
                            proof {
                                crate::memory::lemma_le64_store(mb, tohost as int, 0);
                            }
                            let res = self.finish(cycles, code, false, None);
                            proof {
                                assert(poll_exit(cn, tohost) == Some(code));
                                assert(step_ok(trace.last(), cn));
                                assert(quiet_run(trace, core0, tohost));
                            }
                            return Ok(res);
                        },
                        None => {},
                    }
                },
                Err(_) => {},
            }
            proof {
                assert(poll_exit(cn, tohost) is None);
                let t0 = trace;
                assert(quiet_run(t0, core0, tohost));
                trace = trace.push(cn);
                assert forall|i: int| 0 <= i < trace.len() - 1 implies #[trigger] step_ok(
                    trace[i],
                    trace[i + 1],
                ) && poll_exit(trace[i + 1], tohost) is None by {
                    if i < t0.len() - 1 {
                        assert(trace[i] == t0[i] && trace[i + 1] == t0[i + 1]);
                        assert(0 <= i < t0.len() - 1);
                        assert(step_ok(t0[i], t0[i + 1]));
                        assert(poll_exit(t0[i + 1], tohost) is None);
                    } else {
                        assert(trace[i] == ck && trace[i + 1] == cn);
                    }
                }
            }
        }
        let bd = dec_min(budget);
        let t0 = join_text("Timeout after ", bd.as_str());
        let res = self.finish(cycles, 1, true, Some(join_text(t0.as_str(), " cycles")));
        proof {
            assert(quiet_run(trace, core0, tohost));
        }
        Ok(res)
    }

    /// Loads an ELF executable and installs its image as `load_image`
    /// does, returning the entry point; a file that is not a loadable image
    /// is an `ElfLoadError` and changes nothing.
    pub fn load_elf(&mut self, elf_data: &[u8]) -> (r: Result<u64, ExecutorError>)
        ensures
            match elf_image(elf_data@) {
                Err(e) => r == Err::<u64, ExecutorError>(ExecutorError::ElfLoadError(e)) && final(self).core_spec() == old(self).core_spec() && final(self).image_spec() == old(self).image_spec() && final(self).manual_tohost_spec() == old(self).manual_tohost_spec(),
                Ok((entry, mem, base, tohost, sig)) => {
                    let image = ImagePlacement {
                        base_addr: base,
                        memory_size: mem.len() as u64,
                        tohost,
                        signature: sig,
                    };
                    &&& placement_error(image) is Some ==> (r matches Err(e) && execution_error_is(
                        e,
                        placement_error(image)->0,
                    )) && final(self).core_spec() == old(self).core_spec() && final(self).image_spec() == old(self).image_spec() && final(self).manual_tohost_spec()
                        == old(self).manual_tohost_spec()
                    &&& placement_error(image) is None ==> {
                        &&& r == Ok::<u64, ExecutorError>(entry)
                        &&& final(self).core_spec().memory_spec()@ == mem
                        &&& final(self).core_spec().state_spec().pc == entry
                        &&& final(self).core_spec().state_spec().regs@ == Seq::new(
                            32,
                            |i: int| 0u64,
                        )
                        &&& final(self).core_spec().base_spec() == base
                        &&& final(self).image_spec() == image
                        &&& final(self).manual_tohost_spec() == if tohost is Some {
                            None
                        } else {
                            old(self).manual_tohost_spec()
                        }
                    }
                },
            },
            final(self).max_cycles_spec() == old(self).max_cycles_spec(),
    {
        let loaded = match load_elf_file(elf_data) {
            Ok(l) => l,
            Err(e) => return Err(ExecutorError::ElfLoadError(e)),
        };
        self.load_image(loaded.entry_point, loaded.memory, loaded.base_addr, loaded.tohost, loaded.signature)
    }

    /// Installs a parsed image: `memory` holds the image bytes from its
    /// lowest load address `base_addr`.  The memory is replaced by the image,
    /// the core is reset to `entry_point`, and the image's declared tohost
    /// and signature replace the previous ones (a declared tohost also
    /// supersedes an explicit offset).  A declared tohost that the flat image
    /// cannot address, or whose offset is not eight-byte aligned, is an
    /// error and changes nothing.
    pub fn load_image(
        &mut self,
        entry_point: u64,
        memory: Vec<u8>,
        base_addr: u64,
        tohost: Option<u64>,
        signature: Option<SignatureInfo>,
    ) -> (r: Result<u64, ExecutorError>)
        ensures
            ({
                let image = ImagePlacement {
                    base_addr,
                    memory_size: memory@.len() as u64,
                    tohost,
                    signature,
                };
                let bad = placement_error(image) is Some;
                &&& bad ==> (r matches Err(e) && execution_error_is(e, placement_error(image)->0))
                    && final(self).core_spec() == old(self).core_spec()
                    && final(self).image_spec() == old(self).image_spec()
                    && final(self).manual_tohost_spec() == old(self).manual_tohost_spec()
                &&& !bad ==> {
                    &&& r == Ok::<u64, ExecutorError>(entry_point)
                    &&& final(self).core_spec().memory_spec()@ == memory@
                    &&& final(self).core_spec().state_spec().pc == entry_point
                    &&& final(self).core_spec().state_spec().regs@ == Seq::new(32, |i: int| 0u64)
                    &&& !final(self).core_spec().state_spec().branch_taken
                    &&& final(self).core_spec().state_spec().reservation is None
                    &&& final(self).core_spec().base_spec() == base_addr
                    &&& final(self).image_spec() == image
                    &&& final(self).manual_tohost_spec() == if tohost is Some {
                        None
                    } else {
                        old(self).manual_tohost_spec()
                    }
                }
            }),
            final(self).max_cycles_spec() == old(self).max_cycles_spec(),
    {
        let image = ImagePlacement::new(base_addr, memory.len(), tohost, signature);
        match image.tohost(image.address_form()) {
            Err(e) => return Err(e),
            Ok(Some(offset)) => {
                if offset % 8 != 0 {
                    let g = match tohost {
                        Some(g) => g,
                        None => 0,
                    };
                    let gh = hex16(g);
                    let oh = hex16(offset);
                    let t0 = join_text("ELF tohost address 0x", gh.as_str());
                    let t1 = join_text(t0.as_str(), " maps to flat offset 0x");
                    let t2 = join_text(t1.as_str(), oh.as_str());
                    return Err(
                        ExecutorError::ExecutionError(
                            join_text(t2.as_str(), ", which the exit poll cannot read eight-byte aligned"),
                        ),
                    );
                }
            },
            Ok(None) => {},
        }
        let mut ram = SimpleMemory::new(memory.len());
        ram.load_program(memory.as_slice(), base_addr);
        assert(ram@ =~= memory@);
        let mut core = RiscvCore::new(ram);
        core.set_verbose(self.verbose);
        if tohost.is_some() {
            self.manual_tohost = None;
        }
        self.image = image;
        core.reset(entry_point, base_addr);
        self.core = core;
        Ok(entry_point)
    }

    /// The core's state.
    pub fn state(&self) -> (r: &CoreState)
        ensures
            *r == self.core_spec().state_spec(),
    {
        self.core.state()
    }

    /// The core's state, for modification.
    pub fn state_mut(&mut self) -> (r: &mut CoreState)
        ensures
            *r == old(self).core_spec().state_spec(),
            final(self).core_spec().state_spec() == *final(r),
            final(self).core_spec().memory_spec() == old(self).core_spec().memory_spec(),
            final(self).core_spec().base_spec() == old(self).core_spec().base_spec(),
            final(self).manual_tohost_spec() == old(self).manual_tohost_spec(),
            final(self).image_spec() == old(self).image_spec(),
            final(self).max_cycles_spec() == old(self).max_cycles_spec(),
    {
        self.core.state_mut()
    }

    /// The memory.
    pub fn memory(&self) -> (r: &SimpleMemory)
        ensures
            *r == self.core_spec().memory_spec(),
    {
        self.core.memory()
    }

    /// Reads `size` bytes at a flat offset: an empty request gives an empty
    /// vector; a range inside memory gives its bytes; any other range is an
    /// error.  Nothing is changed.
    pub fn read_mem(&self, addr: u64, size: usize) -> (r: Result<Vec<u8>, ExecutorError>)
        ensures
            size == 0 ==> (r matches Ok(v) && v@.len() == 0),
            size > 0 && span_inside(0, self.core_spec().memory_spec()@.len(), addr, size as nat) ==> (
            r matches Ok(v) && v@ == self.core_spec().memory_spec()@.subrange(addr as int, addr + size)),
            size > 0 && !span_inside(0, self.core_spec().memory_spec()@.len(), addr, size as nat) ==> (
            r matches Err(e) && execution_error_is(
                e,
                read_mem_error_text(self.core_spec().memory_spec()@.len(), addr, size as nat),
            )),
    {
        if size == 0 {
            return Ok(Vec::new());
        }
        if addr > u64::MAX - (size - 1) as u64 {
            let ah = hex16(addr);
            let sd = dec_min(size as u64);
            let t0 = join_text("Memory read error: address 0x", ah.as_str());
            let t1 = join_text(t0.as_str(), " size ");
            let t2 = join_text(t1.as_str(), sd.as_str());
            return Err(ExecutorError::ExecutionError(join_text(t2.as_str(), " overflows the address space")));
        }
        let mem = self.core.memory();
        let len = mem.size();
        match mem.read_bytes(addr, size) {
            Ok(v) => Ok(v),
            Err(_) => {
                let f: u64 = if addr < len as u64 {
                    len as u64
                } else {
                    addr
                };
                let fh = hex16(f);
                let et = MemoryError::InvalidAddress(f).to_display_string();
                let t0 = join_text("Memory read error at 0x", fh.as_str());
                let t1 = join_text(t0.as_str(), ": ");
                Err(ExecutorError::ExecutionError(join_text(t1.as_str(), et.as_str())))
            },
        }
    }

    /// Writes bytes at a flat offset, one at a time: a range inside memory is
    /// written whole; otherwise the bytes up to the end of memory are
    /// written and the result is an error.
    pub fn write_mem(&mut self, addr: u64, data: &[u8]) -> (r: Result<(), ExecutorError>)
        ensures
            ({
                let m0 = old(self).core_spec().memory_spec()@;
                let m1 = final(self).core_spec().memory_spec()@;
                let k = writable_prefix(m0.len(), addr, data@.len());
                &&& m1 == store_bytes(m0, addr as int, data@.subrange(0, k))
                &&& k == data@.len() ==> r is Ok
                &&& k < data@.len() ==> (r matches Err(e) && execution_error_is(
                    e,
                    "Memory write error: "@ + memory_error_text(MemoryError::InvalidAddress((addr + k) as u64)),
                ))
            }),
            final(self).core_spec().state_spec() == old(self).core_spec().state_spec(),
            final(self).core_spec().base_spec() == old(self).core_spec().base_spec(),
            final(self).manual_tohost_spec() == old(self).manual_tohost_spec(),
            final(self).image_spec() == old(self).image_spec(),
            final(self).max_cycles_spec() == old(self).max_cycles_spec(),
    {
        write_prefix(self.core.memory_mut(), addr, data)
    }
}

/// Returns a core to the reset state at `entry_point`, fetching from
/// `pc - base_addr`.
pub fn reset_core(core: &mut RiscvCore, entry_point: u64, base_addr: u64)
    ensures
        final(core).memory_spec() == old(core).memory_spec(),
        final(core).base_spec() == base_addr,
        final(core).state_spec().pc == entry_point,
        final(core).state_spec().regs@ == Seq::new(32, |i: int| 0u64),
        !final(core).state_spec().branch_taken,
        final(core).state_spec().reservation is None,
{
    core.reset(entry_point, base_addr);
}

/// Executes one instruction of a core; a failure is an `ExecutionError`.
pub fn step_once(core: &mut RiscvCore) -> (r: Result<(), ExecutorError>)
    ensures
        exists|e: Result<(), ExecuteError>|
            {
                &&& #[trigger] step_post(
                    old(core).state_spec(),
                    old(core).memory_spec(),
                    old(core).base_spec(),
                    final(core).state_spec(),
                    final(core).memory_spec(),
                    e,
                )
                &&& (e is Ok <==> r is Ok)
                &&& (e matches Err(ee) ==> (r matches Err(ExecutorError::ExecutionError(s)) && s@
                    == execute_error_text(ee)))
            },
        final(core).base_spec() == old(core).base_spec(),
{
    match core.step() {
        Ok(()) => Ok(()),
        Err(e) => Err(
            ExecutorError::ExecutionError(describe_execute_error(&e).to_owned()),
        ),
    }
}

/// A copy of a core's state.
pub fn get_core_state(core: &RiscvCore) -> (r: CoreState)
    ensures
        r.pc == core.state_spec().pc,
        r.regs == core.state_spec().regs,
        r.fpr == core.state_spec().fpr,
        r.fcsr == core.state_spec().fcsr,
        r.privilege == core.state_spec().privilege,
        r.branch_taken == core.state_spec().branch_taken,
        r.csr@ == core.state_spec().csr@,
        same_reservation(r.reservation, core.state_spec().reservation),
{
    let s = core.state();
    let reservation = match &s.reservation {
        Some(rs) => Some(rs.duplicate()),
        None => None,
    };
    CoreState {
        pc: s.pc,
        regs: s.regs,
        fpr: s.fpr,
        fcsr: s.fcsr,
        csr: s.csr.duplicate(),
        privilege: s.privilege,
        branch_taken: s.branch_taken,
        reservation,
    }
}

/// Runs a simulator with a budget of `max_cycles` instructions.
pub fn run_until_exit(simulator: &mut RiscVSimulator, max_cycles: u64) -> (r: Result<
    ExecutionResult,
    ExecutorError,
>)
    ensures
        tohost_offset_spec(old(simulator).manual_tohost_spec(), old(simulator).image_spec()) is None
            ==> (r matches Err(e) && execution_error_is(e, tohost_error_text(old(simulator).image_spec()))),
        tohost_offset_spec(old(simulator).manual_tohost_spec(), old(simulator).image_spec()) matches Some(
            t,
        ) ==> (r matches Ok(res) && run_outcome(
            max_cycles,
            t,
            old(simulator).core_spec(),
            final(simulator).core_spec(),
            final(simulator).image_spec(),
            res,
        )),
{
    simulator.run(Some(max_cycles))
}


/// Where a bus run polls for the exit signal: the address given, else the
/// image's declared tohost, else the HTIF register.
pub open spec fn bus_tohost(given: Option<u64>, declared: Option<u64>) -> u64 {
    match given {
        Some(a) => a,
        None => match declared {
            Some(g) => g,
            None => DEFAULT_TOHOST,
        },
    }
}

/// The exit code the last HTIF write carries, if any.  The code
/// `u32::MAX` stands for "no exit signalled" and is not taken.
pub open spec fn htif_exit(b: SystemBus) -> Option<u32> {
    let w = b.htif_writes_spec();
    if w.len() > 0 {
        match exit_code_of(w.last()) {
            Some(c) => if c == u32::MAX {
                None
            } else {
                Some(c)
            },
            None => None,
        }
    } else {
        None
    }
}

/// The exit code a read of the doubleword at bus address `t` finds.
pub open spec fn bus_poll(b: SystemBus, t: u64) -> Option<u32> {
    match bus_read_spec(b, t, 8) {
        Ok(v) => exit_code_of(v),
        Err(_) => None,
    }
}

/// The exit signal seen after an instruction: an HTIF write first, then the
/// tohost doubleword.
pub open spec fn bus_exit(b: SystemBus, t: u64) -> Option<u32> {
    match htif_exit(b) {
        Some(c) => Some(c),
        None => bus_poll(b, t),
    }
}

/// `b1` is `b0` with its recorded HTIF writes forgotten.
pub open spec fn htif_cleared(b0: SystemBus, b1: SystemBus) -> bool {
    &&& b1.ram_spec() == b0.ram_spec()
    &&& b1.ram_base_spec() == b0.ram_base_spec()
    &&& b1.uart_regs_spec() == b0.uart_regs_spec()
    &&& b1.uart_out_spec() == b0.uart_out_spec()
    &&& b1.htif_writes_spec() == Seq::<u64>::empty()
}

/// One instruction of the bus machine retires and signals no exit.
pub open spec fn bus_quiet_step(c: (CoreState, SystemBus), n: (CoreState, SystemBus), t: u64) -> bool {
    exists|mid: SystemBus|
        #[trigger] bus_step_post(c.0, c.1, n.0, mid, Ok(())) && bus_exit(mid, t) is None && htif_cleared(
            mid,
            n.1,
        )
}

/// `trace` starts at `c0` and every instruction along it retired quietly.
pub open spec fn bus_quiet_run(trace: Seq<(CoreState, SystemBus)>, c0: (CoreState, SystemBus), t: u64) -> bool {
    &&& trace.len() >= 1
    &&& trace[0] == c0
    &&& forall|i: int| 0 <= i < trace.len() - 1 ==> #[trigger] bus_quiet_step(trace[i], trace[i + 1], t)
}

/// The signature a bus run reports from RAM `ram`: none without a declared
/// region or when the region cannot be read from RAM; otherwise its bytes.
pub open spec fn bus_signature(image: ImagePlacement, ram: Seq<u8>, data: Option<Vec<u8>>) -> bool {
    match image.signature {
        None => data is None,
        Some(info) => if info.vaddr < image.base_addr {
            data is None
        } else {
            let off = (info.vaddr - image.base_addr) as u64;
            if info.size == 0 {
                data matches Some(v) && v@.len() == 0
            } else if span_inside(0, ram.len(), off, info.size as nat) {
                data matches Some(v) && v@ == ram.subrange(off as int, off + info.size)
            } else {
                data is None
            }
        },
    }
}

/// The fields of a bus run's result.
pub open spec fn bus_reported(
    res: ExecutionResult,
    image: ImagePlacement,
    ram: Seq<u8>,
    cycles: u64,
    exit_code: u32,
    timed_out: bool,
    pc: u64,
    error: Option<Seq<char>>,
) -> bool {
    &&& res.exit_code == exit_code
    &&& res.cycles == cycles
    &&& res.final_pc == pc
    &&& res.timed_out == timed_out
    &&& text_of(res.error) == error
    &&& res.signature_addr == match image.signature {
        Some(s) => Some(s.vaddr),
        None => None,
    }
    &&& bus_signature(image, ram, res.signature_data)
}

/// The commit records of a quiet run: one per retired instruction, naming
/// its pc and bits (fetched before it ran) and the state after it.
pub open spec fn trace_commits(trace: Seq<(CoreState, SystemBus)>, commits: Seq<CommitRecord>) -> bool {
    &&& commits.len() == trace.len() - 1
    &&& forall|i: int|
        0 <= i < trace.len() - 1 ==> #[trigger] commit_matches(
            commits[i],
            trace[i].0.pc,
            trace[i].0.regs@,
            trace[i + 1].0,
            fetched_bits(trace[i].1, trace[i].0.pc),
        )
}

/// The records a run keeps: those of its quiet run when logging, none
/// otherwise.
pub open spec fn logged(log: bool, trace: Seq<(CoreState, SystemBus)>, commits: Seq<CommitRecord>) -> bool {
    if log {
        trace_commits(trace, commits)
    } else {
        commits.len() == 0
    }
}

/// What a bus run with `budget` instructions allowed and the exit signal
/// polled at `t` reports, with the UART output `out`: a quiet run of
/// `k <= budget` instructions comes first; then the budget is spent (a
/// timeout, exit code 1), or the next instruction fails (exit code 1, the
/// pc it failed at and the failure's text), or the next instruction
/// retires and signals an exit, through HTIF or through the tohost
/// doubleword (which is then cleared), whose code is reported after `k + 1`
/// instructions.  When `log` is set, `commits` holds one record per
/// retired instruction; otherwise it is empty.
#[verifier::opaque]
pub open spec fn bus_run_outcome(
    budget: u64,
    t: u64,
    c0: (CoreState, SystemBus),
    image: ImagePlacement,
    res: ExecutionResult,
    out: Seq<u8>,
    log: bool,
    commits: Seq<CommitRecord>,
) -> bool {
    exists|trace: Seq<(CoreState, SystemBus)>|
        #[trigger] bus_quiet_run(trace, c0, t) && trace.len() - 1 <= budget && {
            let k = (trace.len() - 1) as u64;
            let ck = trace.last();
            ||| k == budget && out == ck.1.uart_out_spec() && logged(log, trace, commits) && bus_reported(
                res,
                image,
                ck.1.ram_spec()@,
                budget,
                1,
                true,
                ck.0.pc,
                Some("Timeout after "@ + dec_digits(budget) + " cycles"@),
            )
            ||| k < budget && (exists|e: Result<(), ExecuteError>, s1: CoreState, b1: SystemBus|
                e is Err && #[trigger] bus_step_post(ck.0, ck.1, s1, b1, e) && out == b1.uart_out_spec()
                    && logged(log, trace, commits) && bus_reported(
                    res,
                    image,
                    b1.ram_spec()@,
                    k,
                    1,
                    false,
                    ck.0.pc,
                    Some(
                        "Execution error at PC 0x"@ + hex_prefix(ck.0.pc, 16) + ": "@ + execute_error_text(
                            e->Err_0,
                        ),
                    ),
                ))
            ||| k < budget && (exists|sn: CoreState, mid: SystemBus|
                #[trigger] bus_step_post(ck.0, ck.1, sn, mid, Ok(())) && bus_exit(mid, t) == Some(
                    res.exit_code,
                ) && out == mid.uart_out_spec() && (if log {
                    &&& commits.len() == trace.len()
                    &&& trace_commits(trace, commits.drop_last())
                    &&& commit_matches(commits.last(), ck.0.pc, ck.0.regs@, sn, fetched_bits(ck.1, ck.0.pc))
                } else {
                    commits.len() == 0
                }) && bus_reported(
                    res,
                    image,
                    if htif_exit(mid) is Some {
                        mid.ram_spec()@
                    } else {
                        store_le(mid.ram_spec()@, t - mid.ram_base_spec(), 8, 0)
                    },
                    (k + 1) as u64,
                    res.exit_code,
                    false,
                    sn.pc,
                    None,
                ))
        }
}

/// The instruction budget of a run: the one given, else ten million.
pub open spec fn run_budget(max_cycles: Option<u64>) -> u64 {
    match max_cycles {
        Some(m) => m,
        None => DEFAULT_MAX_CYCLES,
    }
}

/// The machine a bus run starts from: the core reset to `entry` (machine
/// mode, registers zero, no reservation) and a bus over RAM holding `mem`
/// at `base`, with a reset UART and no HTIF writes.
pub open spec fn bus_initial(c0: (CoreState, SystemBus), entry: u64, mem: Seq<u8>, base: u64) -> bool {
    &&& c0.0.pc == entry
    &&& c0.0.regs@ == Seq::new(32, |i: int| 0u64)
    &&& c0.0.privilege == crate::cpu::PrivilegeMode::Machine
    &&& c0.0.reservation is None
    &&& c0.1.ram_spec()@ == mem
    &&& c0.1.ram_base_spec() == base
    &&& c0.1.uart_regs_spec() == Seq::new(10, |i: int| 0u8)
    &&& c0.1.uart_out_spec() == Seq::<u8>::empty()
    &&& c0.1.htif_writes_spec() == Seq::<u64>::empty()
}

/// A loaded file, the placement and starting machine made from it, and the
/// tohost address a run polls.
pub open spec fn bus_setup(
    loaded: Result<(u64, Seq<u8>, u64, Option<u64>, Option<SignatureInfo>), ElfError>,
    image: ImagePlacement,
    c0: (CoreState, SystemBus),
    t: u64,
    given: Option<u64>,
) -> bool {
    loaded matches Ok((entry, mem, base, tohost, sig)) && image == (ImagePlacement {
        base_addr: base,
        memory_size: mem.len() as u64,
        tohost,
        signature: sig,
    }) && bus_initial(c0, entry, mem, base) && t == bus_tohost(given, tohost)
}

proof fn lemma_bus_result(
    loaded: Result<(u64, Seq<u8>, u64, Option<u64>, Option<SignatureInfo>), ElfError>,
    image: ImagePlacement,
    c0: (CoreState, SystemBus),
    t: u64,
    given: Option<u64>,
    max_cycles: Option<u64>,
    res: ExecutionResult,
    out: Vec<u8>,
    log: bool,
    commits: Vec<CommitRecord>,
)
    requires
        bus_setup(loaded, image, c0, t, given),
        image.memory_size > 0,
        bus_run_outcome(run_budget(max_cycles), t, c0, image, res, out@, log, commits@),
    ensures
        load_and_run_spec(loaded, max_cycles, given, log, Ok((res, out, commits))),
{
    let (entry, mem, base, tohost, sig) = loaded->Ok_0;
    let im = ImagePlacement { base_addr: base, memory_size: mem.len() as u64, tohost, signature: sig };
    assert(image == im);
    assert(bus_initial(c0, entry, mem, base));
    assert(t == bus_tohost(given, tohost));
    let r = Ok::<(ExecutionResult, Vec<u8>, Vec<CommitRecord>), ExecutorError>((res, out, commits));
    assert(r->Ok_0.0 == res && r->Ok_0.1 == out && r->Ok_0.2 == commits);
    assert(bus_run_outcome(
        run_budget(max_cycles),
        bus_tohost(given, tohost),
        c0,
        im,
        r->Ok_0.0,
        r->Ok_0.1@,
        log,
        r->Ok_0.2@,
    ));
}

proof fn lemma_bus_timeout(
    budget: u64,
    t: u64,
    c0: (CoreState, SystemBus),
    image: ImagePlacement,
    res: ExecutionResult,
    out: Seq<u8>,
    trace: Seq<(CoreState, SystemBus)>,
    log: bool,
    commits: Seq<CommitRecord>,
)
    requires
        bus_quiet_run(trace, c0, t),
        trace.len() - 1 == budget,
        out == trace.last().1.uart_out_spec(),
        logged(log, trace, commits),
        bus_reported(
            res,
            image,
            trace.last().1.ram_spec()@,
            budget,
            1,
            true,
            trace.last().0.pc,
            Some("Timeout after "@ + dec_digits(budget) + " cycles"@),
        ),
    ensures
        bus_run_outcome(budget, t, c0, image, res, out, log, commits),
{
    reveal(bus_run_outcome);
}

proof fn lemma_bus_failure(
    budget: u64,
    t: u64,
    c0: (CoreState, SystemBus),
    image: ImagePlacement,
    res: ExecutionResult,
    out: Seq<u8>,
    trace: Seq<(CoreState, SystemBus)>,
    e: ExecuteError,
    s1: CoreState,
    b1: SystemBus,
    log: bool,
    commits: Seq<CommitRecord>,
)
    requires
        bus_quiet_run(trace, c0, t),
        trace.len() - 1 < budget,
        bus_step_post(trace.last().0, trace.last().1, s1, b1, Err(e)),
        out == b1.uart_out_spec(),
        logged(log, trace, commits),
        bus_reported(
            res,
            image,
            b1.ram_spec()@,
            (trace.len() - 1) as u64,
            1,
            false,
            trace.last().0.pc,
            Some("Execution error at PC 0x"@ + hex_prefix(trace.last().0.pc, 16) + ": "@ + execute_error_text(e)),
        ),
    ensures
        bus_run_outcome(budget, t, c0, image, res, out, log, commits),
{
    reveal(bus_run_outcome);
    let er = Err::<(), ExecuteError>(e);
    assert(bus_step_post(trace.last().0, trace.last().1, s1, b1, er));
}

proof fn lemma_bus_exit(
    budget: u64,
    t: u64,
    c0: (CoreState, SystemBus),
    image: ImagePlacement,
    res: ExecutionResult,
    out: Seq<u8>,
    trace: Seq<(CoreState, SystemBus)>,
    sn: CoreState,
    mid: SystemBus,
    ram: Seq<u8>,
    log: bool,
    commits: Seq<CommitRecord>,
)
    requires
        bus_quiet_run(trace, c0, t),
        trace.len() - 1 < budget,
        bus_step_post(trace.last().0, trace.last().1, sn, mid, Ok(())),
        bus_exit(mid, t) == Some(res.exit_code),
        out == mid.uart_out_spec(),
        log ==> commits.len() == trace.len() && trace_commits(trace, commits.drop_last()) && commit_matches(
            commits.last(),
            trace.last().0.pc,
            trace.last().0.regs@,
            sn,
            fetched_bits(trace.last().1, trace.last().0.pc),
        ),
        !log ==> commits.len() == 0,
        ram == if htif_exit(mid) is Some {
            mid.ram_spec()@
        } else {
            store_le(mid.ram_spec()@, t - mid.ram_base_spec(), 8, 0)
        },
        bus_reported(res, image, ram, trace.len() as u64, res.exit_code, false, sn.pc, None),
    ensures
        bus_run_outcome(budget, t, c0, image, res, out, log, commits),
{
    reveal(bus_run_outcome);
    assert(bus_step_post(trace.last().0, trace.last().1, sn, mid, Ok(())));
}

/// The signature a bus run reports.
fn bus_signature_data(bus: &SystemBus, image: &ImagePlacement) -> (r: Option<Vec<u8>>)
    requires
        bus.ram_base_spec() == image.base_addr,
    ensures
        bus_signature(*image, bus.ram_spec()@, r),
{
    match image.signature {
        None => None,
        Some(info) => if info.vaddr < image.base_addr {
            None
        } else {
            let local = SignatureInfo {
                vaddr: info.vaddr - image.base_addr,
                size: info.size,
                file_offset: info.file_offset,
            };
            match dump_signature(bus.ram(), Some(&local)) {
                Ok(d) => d,
                Err(_) => None,
            }
        },
    }
}

/// The result of a bus run.
fn bus_finish(
    bus: &SystemBus,
    image: &ImagePlacement,
    cycles: u64,
    exit_code: u32,
    timed_out: bool,
    pc: u64,
    error: Option<String>,
) -> (r: ExecutionResult)
    requires
        bus.ram_base_spec() == image.base_addr,
    ensures
        bus_reported(r, *image, bus.ram_spec()@, cycles, exit_code, timed_out, pc, text_of(error)),
{
    let signature_addr = match image.signature {
        Some(s) => Some(s.vaddr),
        None => None,
    };
    ExecutionResult {
        exit_code,
        cycles,
        final_pc: pc,
        timed_out,
        error,
        signature_addr,
        signature_data: bus_signature_data(bus, image),
    }
}

/// The exit code the last HTIF write carries.
fn last_htif_exit(bus: &SystemBus) -> (r: Option<u32>)
    ensures
        r == htif_exit(*bus),
{
    let w = bus.htif_writes();
    let n = w.len();
    if n > 0 {
        match try_extract_exit_code(w[n - 1]) {
            Some(c) => if c == u32::MAX {
                None
            } else {
                Some(c)
            },
            None => None,
        }
    } else {
        None
    }
}

/// What `load_and_run` gives for what loading a file gave, a budget and a
/// tohost address: a file that does not load is an `ElfLoadError`; an empty image is a
/// `MemoryAllocationFailed`; otherwise the outcome of a bus run from the
/// image's entry point with the budget (ten million by default) and the
/// tohost address given, else declared, else the HTIF register.
pub open spec fn load_and_run_spec(
    loaded: Result<(u64, Seq<u8>, u64, Option<u64>, Option<SignatureInfo>), ElfError>,
    max_cycles: Option<u64>,
    tohost_addr: Option<u64>,
    log_commits: bool,
    r: Result<(ExecutionResult, Vec<u8>, Vec<CommitRecord>), ExecutorError>,
) -> bool {
    match loaded {
        Err(e) => r == Err::<(ExecutionResult, Vec<u8>, Vec<CommitRecord>), ExecutorError>(
            ExecutorError::ElfLoadError(e),
        ),
        Ok((entry, mem, base, tohost, sig)) => {
            &&& mem.len() == 0 ==> r == Err::<(ExecutionResult, Vec<u8>, Vec<CommitRecord>), ExecutorError>(
                ExecutorError::MemoryAllocationFailed,
            )
            &&& mem.len() > 0 ==> r is Ok && exists|c0: (CoreState, SystemBus)|
                bus_initial(c0, entry, mem, base) && #[trigger] bus_run_outcome(
                    run_budget(max_cycles),
                    bus_tohost(tohost_addr, tohost),
                    c0,
                    ImagePlacement { base_addr: base, memory_size: mem.len() as u64, tohost, signature: sig },
                    r->Ok_0.0,
                    r->Ok_0.1@,
                    log_commits,
                    r->Ok_0.2@,
                )
        },
    }
}

/// Loads an ELF executable onto the system bus (RAM at the image base,
/// the UART and the HTIF register) and runs it from its entry point until
/// the guest signals its exit, an instruction fails, or `max_cycles`
/// instructions (by default ten million) have run.  After every retired
/// instruction an exit written to the HTIF register is taken first; then
/// the doubleword at the tohost address (`tohost_addr`, else the image's
/// `tohost` symbol, else the HTIF register) is read, and an exit signal
/// there is taken and the doubleword cleared.  Returns the result, the
/// bytes the guest wrote to the UART, and, when `log_commits` is set, one
/// commit record per retired instruction.
pub fn load_and_run(elf_data: &[u8], max_cycles: Option<u64>, tohost_addr: Option<u64>, log_commits: bool) -> (r:
    Result<(ExecutionResult, Vec<u8>, Vec<CommitRecord>), ExecutorError>)
    ensures
        load_and_run_spec(elf_image(elf_data@), max_cycles, tohost_addr, log_commits, r),
{
    let budget = match max_cycles {
        Some(m) => m,
        None => DEFAULT_MAX_CYCLES,
    };
    let loaded = match load_elf_file(elf_data) {
        Ok(l) => l,
        Err(e) => return Err(ExecutorError::ElfLoadError(e)),
    };
    let mem_size = loaded.memory.len();
    let image = ImagePlacement::new(loaded.base_addr, mem_size, loaded.tohost, loaded.signature);
    let tohost = match tohost_addr {
        Some(a) => a,
        None => match loaded.tohost {
            Some(g) => g,
            None => DEFAULT_TOHOST,
        },
    };
    if mem_size == 0 {
        return Err(ExecutorError::MemoryAllocationFailed);
    }
    let ghost mem = loaded.memory@;
    let bus = SystemBus::new(SimpleMemory::from_data(loaded.memory), loaded.base_addr);
    let mut state = CoreState::default();
    state.pc = loaded.entry_point;
    let ghost c0 = (state, bus);
    let (res, out, commits) = run_on_bus(state, bus, &image, tohost, budget, log_commits);
    proof {
        assert(bus_setup(elf_image(elf_data@), image, c0, tohost, tohost_addr));
        lemma_bus_result(
            elf_image(elf_data@),
            image,
            c0,
            tohost,
            tohost_addr,
            max_cycles,
            res,
            out,
            log_commits,
            commits,
        );
    }
    Ok((res, out, commits))
}

/// Runs the bus machine from `state` and `bus` for at most `budget`
/// instructions, polling for the exit signal at `tohost`, and keeping a
/// commit record per retired instruction when `log` is set.
fn run_on_bus(state0: CoreState, bus0: SystemBus, image: &ImagePlacement, tohost: u64, budget: u64, log: bool) -> (r: (
    ExecutionResult,
    Vec<u8>,
    Vec<CommitRecord>,
))
    requires
        bus0.ram_base_spec() == image.base_addr,
        bus0.htif_writes_spec() == Seq::<u64>::empty(),
    ensures
        bus_run_outcome(budget, tohost, (state0, bus0), *image, r.0, r.1@, log, r.2@),
{
    let mut state = state0;
    let mut bus = bus0;
    let ghost c0 = (state, bus);
    let ghost mut trace = seq![c0];
    let mut commits: Vec<CommitRecord> = Vec::new();
    let mut cycles: u64 = 0;
    while cycles < budget
        invariant
            cycles <= budget,
            c0 == (state0, bus0),
            logged(log, trace, commits@),
            bus.ram_base_spec() == image.base_addr,
            bus_quiet_run(trace, c0, tohost),
            trace.len() == cycles + 1,
            trace.last() == (state, bus),
            bus.htif_writes_spec() == Seq::<u64>::empty(),
        decreases budget - cycles,
    {
        let ghost ck = (state, bus);
        let pc_before = state.pc;
        let regs_before = state.regs;
        let bits = fetch_bits(&bus, pc_before);
        let stepped = bus_step(&mut state, &mut bus);
        match stepped {
            Ok(()) => {},
            Err(e) => {
                let pc_text = hex16(pc_before);
                let t1 = join_text("Execution error at PC 0x", pc_text.as_str());
                let t2 = join_text(t1.as_str(), ": ");
                let msg = join_text(t2.as_str(), describe_execute_error(&e));
                let res = bus_finish(&bus, image, cycles, 1, false, pc_before, Some(msg));
                let out = bus.uart_output().clone();
                proof {
                    assert(msg@ =~= "Execution error at PC 0x"@ + hex_prefix(ck.0.pc, 16) + ": "@
                        + execute_error_text(e));
                    lemma_bus_failure(budget, tohost, c0, *image, res, out@, trace, e, state, bus, log, commits@);
                }
                return (res, out, commits);
            },
        }
        cycles = cycles + 1;
        let ghost sn = state;
        let ghost mid = bus;
        let ghost before = commits@;
        if log {
            commits.push(commit_record(pc_before, regs_before, &state, bits));
        }
        proof {
            if log {
                assert(commits@.drop_last() =~= before);
            }
        }
        proof {
            if let Ok(u) = stepped {
                assert(u == ());
                assert(stepped == Ok::<(), ExecuteError>(()));
            }
        }
        if let Some(code) = last_htif_exit(&bus) {
            let res = bus_finish(&bus, image, cycles, code, false, state.pc, None);
            let out = bus.uart_output().clone();
            proof {
                lemma_bus_exit(budget, tohost, c0, *image, res, out@, trace, sn, mid, mid.ram_spec()@, log, commits@);
            }
            return (res, out, commits);
        }
        if let Some(code) = poll_bus_exit(&bus, tohost) {
            clear_bus_tohost(&mut bus, tohost);
            let res = bus_finish(&bus, image, cycles, code, false, state.pc, None);
            let out = bus.uart_output().clone();
            proof {
                lemma_bus_exit(budget, tohost, c0, *image, res, out@, trace, sn, mid, bus.ram_spec()@, log, commits@);
            }
            return (res, out, commits);
        }
        bus.clear_htif_writes();
        proof {
            let nx = (state, bus);
            assert(bus_step_post(ck.0, ck.1, nx.0, mid, Ok(())));
            assert(bus_exit(mid, tohost) is None);
            assert(htif_cleared(mid, nx.1));
            assert(bus_quiet_step(ck, nx, tohost));
            let t0 = trace;
            trace = trace.push((state, bus));
            assert forall|i: int| 0 <= i < trace.len() - 1 implies #[trigger] bus_quiet_step(
                trace[i],
                trace[i + 1],
                tohost,
            ) by {
                if i < t0.len() - 1 {
                    assert(trace[i] == t0[i] && trace[i + 1] == t0[i + 1]);
                } else {
                    assert(trace[i] == ck && trace[i + 1] == (state, bus));
                }
            }
            if log {
                assert forall|i: int| 0 <= i < trace.len() - 1 implies #[trigger] commit_matches(
                    commits@[i],
                    trace[i].0.pc,
                    trace[i].0.regs@,
                    trace[i + 1].0,
                    fetched_bits(trace[i].1, trace[i].0.pc),
                ) by {
                    if i < t0.len() - 1 {
                        assert(trace[i] == t0[i] && trace[i + 1] == t0[i + 1]);
                        assert(commits@[i] == before[i]);
                    } else {
                        assert(trace[i] == ck && trace[i + 1] == (state, bus));
                    }
                }
            }
        }
    }
    let bd = dec_min(budget);
    let t0 = join_text("Timeout after ", bd.as_str());
    let res = bus_finish(&bus, image, cycles, 1, true, state.pc, Some(join_text(t0.as_str(), " cycles")));
    let out = bus.uart_output().clone();
    proof {
        lemma_bus_timeout(budget, tohost, c0, *image, res, out@, trace, log, commits@);
    }
    (res, out, commits)
}


/// The exit code a read of the doubleword at `t` through the bus finds.
fn poll_bus_exit(bus: &SystemBus, t: u64) -> (r: Option<u32>)
    ensures
        r == bus_poll(*bus, t),
{
    match bus.read_dword(t) {
        Ok(v) => try_extract_exit_code(v),
        Err(_) => None,
    }
}

/// Clears the tohost doubleword in RAM after its exit signal was taken.
fn clear_bus_tohost(bus: &mut SystemBus, t: u64)
    requires
        bus_poll(*old(bus), t) is Some,
    ensures
        final(bus).ram_spec()@ == store_le(old(bus).ram_spec()@, t - old(bus).ram_base_spec(), 8, 0),
        final(bus).ram_base_spec() == old(bus).ram_base_spec(),
        final(bus).uart_out_spec() == old(bus).uart_out_spec(),
{
    proof {
        assert(exit_code_of(0) is None);
    }
    let _ = bus.write_dword(t, 0);
}

} // verus!
