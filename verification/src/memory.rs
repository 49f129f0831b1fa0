//! Flat little-endian memory.
//!
//! `SimpleMemory` is a byte array addressed from offset 0.  Typed accesses
//! check bounds first and natural alignment second.  Every committed write
//! also records, per byte, the version of the last write that covered it; a
//! load-reserved captures those versions and a store-conditional succeeds
//! only when none of them changed.
use vstd::prelude::*;
use crate::arith::{sext8, sext16, sext32, sign_extend_32};
use crate::text::{dec_digits, dec_min, hex16, hex_prefix, join_text};

verus! {

/// Memory errors.
#[derive(Debug, Clone, PartialEq, Eq)]
pub enum MemoryError {
    /// The access falls (partly) outside the memory.
    InvalidAddress(u64),
    /// The address is not aligned to the access width.
    Misaligned(u64, u32),
    /// A span left the memory.
    OutOfBounds,
    /// The backend could not complete the request.
    Backend(String),
    /// A caller violated the access protocol (for example a malformed snapshot).
    Protocol(String),
    /// Whether the access completed cannot be established.
    Unknown(String),
}

/// How a memory error reads.
pub open spec fn memory_error_text(e: MemoryError) -> Seq<char> {
    match e {
        MemoryError::InvalidAddress(a) => "Invalid memory address: 0x"@ + hex_prefix(a, 16),
        MemoryError::Misaligned(a, w) => "Misaligned access: addr 0x"@ + hex_prefix(a, 16)
            + ", requires "@ + dec_digits(w as u64) + "-byte alignment"@,
        MemoryError::OutOfBounds => "Memory access out of bounds"@,
        MemoryError::Backend(s) => "Memory backend failure: "@ + s@,
        MemoryError::Protocol(s) => "Memory protocol failure: "@ + s@,
        MemoryError::Unknown(s) => "Memory completion is unknown: "@ + s@,
    }
}

impl MemoryError {
    /// The text of this error.
    pub fn to_display_string(&self) -> (r: String)
        ensures
            r@ == memory_error_text(*self),
    {
        match self {
            MemoryError::InvalidAddress(a) => {
                let h = hex16(*a);
                join_text("Invalid memory address: 0x", h.as_str())
            },
            MemoryError::Misaligned(a, w) => {
                let h = hex16(*a);
                let d = dec_min(*w as u64);
                let t1 = join_text("Misaligned access: addr 0x", h.as_str());
                let t2 = join_text(t1.as_str(), ", requires ");
                let t3 = join_text(t2.as_str(), d.as_str());
                join_text(t3.as_str(), "-byte alignment")
            },
            MemoryError::OutOfBounds => {
                let r = join_text("Memory access out of bounds", "");
                proof {
                    reveal_strlit("");
                    assert(r@ =~= "Memory access out of bounds"@);
                }
                r
            },
            MemoryError::Backend(s) => join_text("Memory backend failure: ", s.as_str()),
            MemoryError::Protocol(s) => join_text("Memory protocol failure: ", s.as_str()),
            MemoryError::Unknown(s) => join_text("Memory completion is unknown: ", s.as_str()),
        }
    }
}

/// Typed memory accesses (RV64, little-endian).
pub trait MemoryInterface {
    /// Reads a doubleword (8 bytes).
    fn read_dword(&self, addr: u64) -> Result<u64, MemoryError>;

    /// Reads a word (4 bytes).
    fn read_word(&self, addr: u64) -> Result<u32, MemoryError>;

    /// Reads a halfword (2 bytes).
    fn read_half(&self, addr: u64) -> Result<u16, MemoryError>;

    /// Reads a byte.
    fn read_byte(&self, addr: u64) -> Result<u8, MemoryError>;

    /// Reads a word, zero-extended to 64 bits.
    fn read_word_zext(&self, addr: u64) -> Result<u64, MemoryError>;

    /// Reads a halfword, zero-extended to 64 bits.
    fn read_half_zext(&self, addr: u64) -> Result<u64, MemoryError>;

    /// Reads a byte, zero-extended to 64 bits.
    fn read_byte_zext(&self, addr: u64) -> Result<u64, MemoryError>;

    /// Reads a word, sign-extended to 64 bits.
    fn read_word_sext(&self, addr: u64) -> Result<u64, MemoryError>;

    /// Reads a halfword, sign-extended to 64 bits.
    fn read_half_sext(&self, addr: u64) -> Result<u64, MemoryError>;

    /// Reads a byte, sign-extended to 64 bits.
    fn read_byte_sext(&self, addr: u64) -> Result<u64, MemoryError>;

    /// Writes a doubleword.
    fn write_dword(&mut self, addr: u64, value: u64) -> Result<(), MemoryError>;

    /// Writes a word.
    fn write_word(&mut self, addr: u64, value: u32) -> Result<(), MemoryError>;

    /// Writes a halfword.
    fn write_half(&mut self, addr: u64, value: u16) -> Result<(), MemoryError>;

    /// Writes a byte.
    fn write_byte(&mut self, addr: u64, value: u8) -> Result<(), MemoryError>;

    /// The memory size in bytes.
    fn size(&self) -> usize;
}

/// A nonempty span `[addr, addr + width)` lies inside `[base, base + size)`
/// without wrapping past the end of the address space.
pub open spec fn span_inside(base: u64, size: nat, addr: u64, width: nat) -> bool {
    &&& width > 0
    &&& addr + width <= 0x1_0000_0000_0000_0000
    &&& addr >= base
    &&& addr - base + width <= size
}

/// The outcome of the bounds-then-alignment check of a typed access.
pub open spec fn access_check(size: nat, addr: u64, width: nat) -> Result<(), MemoryError> {
    if !span_inside(0, size, addr, width) {
        Err(MemoryError::InvalidAddress(addr))
    } else if addr % (width as u64) != 0 {
        Err(MemoryError::Misaligned(addr, width as u32))
    } else {
        Ok(())
    }
}

/// A value, or the error of a failed check.
pub open spec fn checked<T>(c: Result<(), MemoryError>, v: T) -> Result<T, MemoryError> {
    match c {
        Ok(()) => Ok(v),
        Err(e) => Err(e),
    }
}

/// The little-endian halfword at `a`.
pub open spec fn le16(b: Seq<u8>, a: int) -> u16 {
    (b[a] as u16) | ((b[a + 1] as u16) << 8u16)
}

/// The little-endian word at `a`.
pub open spec fn le32(b: Seq<u8>, a: int) -> u32 {
    (b[a] as u32) | ((b[a + 1] as u32) << 8u32) | ((b[a + 2] as u32) << 16u32) | ((b[a + 3] as u32)
        << 24u32)
}

/// The little-endian doubleword at `a`.
pub open spec fn le64(b: Seq<u8>, a: int) -> u64 {
    (b[a] as u64) | ((b[a + 1] as u64) << 8u64) | ((b[a + 2] as u64) << 16u64) | ((b[a + 3] as u64)
        << 24u64) | ((b[a + 4] as u64) << 32u64) | ((b[a + 5] as u64) << 40u64) | ((b[a + 6] as u64)
        << 48u64) | ((b[a + 7] as u64) << 56u64)
}

/// Byte `k` (0 = least significant) of a doubleword.
pub open spec fn byte_of(v: u64, k: int) -> u8 {
    if k == 0 {
        v as u8
    } else if k == 1 {
        (v >> 8u64) as u8
    } else if k == 2 {
        (v >> 16u64) as u8
    } else if k == 3 {
        (v >> 24u64) as u8
    } else if k == 4 {
        (v >> 32u64) as u8
    } else if k == 5 {
        (v >> 40u64) as u8
    } else if k == 6 {
        (v >> 48u64) as u8
    } else {
        (v >> 56u64) as u8
    }
}

/// `b` with the `width` low bytes of `v` stored little-endian at `a`.
pub open spec fn store_le(b: Seq<u8>, a: int, width: int, v: u64) -> Seq<u8> {
    Seq::new(b.len(), |i: int| if a <= i < a + width { byte_of(v, i - a) } else { b[i] })
}

/// `b` with `src` copied in at offset `a`.
pub open spec fn store_bytes(b: Seq<u8>, a: int, src: Seq<u8>) -> Seq<u8> {
    Seq::new(b.len(), |i: int| if a <= i < a + src.len() { src[i - a] } else { b[i] })
}

/// `vs` with every version in `[a, a + len)` replaced by `v`.
pub open spec fn stamp(vs: Seq<u64>, a: int, len: int, v: u64) -> Seq<u64> {
    Seq::new(vs.len(), |i: int| if a <= i < a + len { v } else { vs[i] })
}

/// The snapshot encoding of versions: eight little-endian bytes per version.
pub open spec fn encode_versions(vs: Seq<u64>) -> Seq<u8> {
    Seq::new(vs.len() * 8, |j: int| byte_of(vs[j / 8], j % 8))
}

/// `m1` records one committed write of `[a, a + len)`: the clock advanced and
/// every byte of the span carries the new clock value as its version.
pub open spec fn committed_write(m0: SimpleMemory, m1: SimpleMemory, a: int, len: int) -> bool {
    &&& m1.clock() == m0.clock().wrapping_add(1)
    &&& m1.versions() == stamp(m0.versions(), a, len, m1.clock())
}

/// `m1` has the versions and the clock of `m0`.
pub open spec fn same_versions(m0: SimpleMemory, m1: SimpleMemory) -> bool {
    m1.versions() == m0.versions() && m1.clock() == m0.clock()
}

/// A span of at most eight bytes, zero-padded to eight.
pub open spec fn padded8(b: Seq<u8>) -> Seq<u8> {
    Seq::new(8, |i: int| if i < b.len() { b[i] } else { 0u8 })
}

/// Why a store-conditional's argument checks reject a call.
pub enum ScRejection {
    /// A protocol violation (width, payload length, reserved span or snapshot length).
    Protocol,
    /// The write span is outside the memory.
    InvalidAddress(u64),
}

/// The rejection a store-conditional's argument checks produce, if any, in
/// the order they are made: the width (1 to 8 bytes), the payload length,
/// the write span, the reserved span, and the snapshot length (eight bytes
/// per reserved byte).
pub open spec fn sc_precheck(
    size: nat,
    offset: u64,
    width: usize,
    payload_len: nat,
    reserved_offset: u64,
    reserved_width: usize,
    snapshot_len: nat,
) -> Option<ScRejection> {
    if width == 0 || width > 8 {
        Some(ScRejection::Protocol)
    } else if payload_len != width {
        Some(ScRejection::Protocol)
    } else if !span_inside(0, size, offset, width as nat) {
        Some(ScRejection::InvalidAddress(offset))
    } else if !span_inside(0, size, reserved_offset, reserved_width as nat) {
        Some(ScRejection::Protocol)
    } else if snapshot_len == 0 || snapshot_len != reserved_width * 8 {
        Some(ScRejection::Protocol)
    } else {
        None
    }
}

/// Appending one version appends its eight little-endian bytes.
pub proof fn lemma_encode_versions_push(vs: Seq<u64>, v: u64)
    ensures
        encode_versions(vs.push(v)) == encode_versions(vs) + seq![
            v as u8,
            (v >> 8u64) as u8,
            (v >> 16u64) as u8,
            (v >> 24u64) as u8,
            (v >> 32u64) as u8,
            (v >> 40u64) as u8,
            (v >> 48u64) as u8,
            (v >> 56u64) as u8,
        ],
{
    let a = encode_versions(vs.push(v));
    let b = encode_versions(vs) + seq![
        v as u8,
        (v >> 8u64) as u8,
        (v >> 16u64) as u8,
        (v >> 24u64) as u8,
        (v >> 32u64) as u8,
        (v >> 40u64) as u8,
        (v >> 48u64) as u8,
        (v >> 56u64) as u8,
    ];
    let n = vs.len();
    assert(a.len() == b.len()) by (nonlinear_arith)
        requires
            a.len() == (n + 1) * 8,
            b.len() == n * 8 + 8,
    ;
    assert forall|j: int| 0 <= j < a.len() implies a[j] == b[j] by {
        if j < n * 8 {
            assert(j / 8 < n) by (nonlinear_arith)
                requires
                    0 <= j < n * 8,
            ;
        } else {
            assert(j / 8 == n && j % 8 == j - n * 8) by (nonlinear_arith)
                requires
                    n * 8 <= j < n * 8 + 8,
            ;
        }
    }
    assert(a =~= b);
}

/// No byte carries a version later than the clock.
pub open spec fn versions_bounded(m: SimpleMemory) -> bool {
    forall|i: int| 0 <= i < m.versions().len() ==> #[trigger] m.versions()[i] <= m.clock()
}

/// Two doublewords with the same eight little-endian bytes are equal.
pub proof fn lemma_byte_of_injective(v: u64, w: u64)
    requires
        forall|k: int| 0 <= k < 8 ==> #[trigger] byte_of(v, k) == byte_of(w, k),
    ensures
        v == w,
{
    assert(byte_of(v, 0) == byte_of(w, 0));
    assert(byte_of(v, 1) == byte_of(w, 1));
    assert(byte_of(v, 2) == byte_of(w, 2));
    assert(byte_of(v, 3) == byte_of(w, 3));
    assert(byte_of(v, 4) == byte_of(w, 4));
    assert(byte_of(v, 5) == byte_of(w, 5));
    assert(byte_of(v, 6) == byte_of(w, 6));
    assert(byte_of(v, 7) == byte_of(w, 7));
    assert(v == w) by (bit_vector)
        requires
            v as u8 == w as u8,
            (v >> 8u64) as u8 == (w >> 8u64) as u8,
            (v >> 16u64) as u8 == (w >> 16u64) as u8,
            (v >> 24u64) as u8 == (w >> 24u64) as u8,
            (v >> 32u64) as u8 == (w >> 32u64) as u8,
            (v >> 40u64) as u8 == (w >> 40u64) as u8,
            (v >> 48u64) as u8 == (w >> 48u64) as u8,
            (v >> 56u64) as u8 == (w >> 56u64) as u8,
    ;
}

/// A committed write keeps every version at or below the clock, as long as
/// the clock does not wrap.
pub proof fn lemma_commit_keeps_versions_bounded(m0: SimpleMemory, m1: SimpleMemory, a: int, len: int)
    requires
        versions_bounded(m0),
        m0.clock() < u64::MAX,
        committed_write(m0, m1, a, len),
    ensures
        versions_bounded(m1),
{
}

/// A committed write that covers no byte of the reserved span
/// `[o, o + w)` leaves the span's version snapshot unchanged, so a
/// store-conditional that echoes a snapshot taken before the write still
/// succeeds.
pub proof fn lemma_disjoint_write_keeps_snapshot(
    m0: SimpleMemory,
    m1: SimpleMemory,
    a: int,
    len: int,
    o: int,
    w: int,
)
    requires
        0 <= o,
        0 <= w,
        o + w <= m0@.len(),
        committed_write(m0, m1, a, len),
        a + len <= o || o + w <= a,
    ensures
        encode_versions(m1.versions().subrange(o, o + w)) == encode_versions(
            m0.versions().subrange(o, o + w),
        ),
{
    m0.lemma_versions_len();
    assert(m1.versions().subrange(o, o + w) =~= m0.versions().subrange(o, o + w));
}

/// A committed write that covers a byte of the reserved span `[o, o + w)`
/// changes the span's version snapshot, so a store-conditional that echoes a
/// snapshot taken before the write fails (as long as the clock has not
/// wrapped).
pub proof fn lemma_overlapping_write_breaks_snapshot(
    m0: SimpleMemory,
    m1: SimpleMemory,
    a: int,
    len: int,
    o: int,
    w: int,
)
    requires
        versions_bounded(m0),
        m0.clock() < u64::MAX,
        0 <= o,
        o + w <= m0@.len(),
        committed_write(m0, m1, a, len),
        a < o + w,
        o < a + len,
        len > 0,
        w > 0,
    ensures
        encode_versions(m1.versions().subrange(o, o + w)) != encode_versions(
            m0.versions().subrange(o, o + w),
        ),
{
    m0.lemma_versions_len();
    let j = if a > o { a } else { o };
    let s0 = m0.versions().subrange(o, o + w);
    let s1 = m1.versions().subrange(o, o + w);
    let i = j - o;
    assert(s1[i] == m1.clock());
    assert(s0[i] <= m0.clock());
    let e0 = encode_versions(s0);
    let e1 = encode_versions(s1);
    if e0 == e1 {
        assert forall|k: int| 0 <= k < 8 implies #[trigger] byte_of(s0[i], k) == byte_of(s1[i], k) by {
            assert((i * 8 + k) / 8 == i && (i * 8 + k) % 8 == k) by (nonlinear_arith)
                requires
                    0 <= k < 8,
                    0 <= i,
            ;
            assert(i * 8 + k < w * 8) by (nonlinear_arith)
                requires
                    0 <= k < 8,
                    0 <= i < w,
            ;
            assert(e0[i * 8 + k] == e1[i * 8 + k]);
        }
        lemma_byte_of_injective(s0[i], s1[i]);
    }
}

/// `ms` is a run of memories of one size in which each one comes from the
/// one before by a committed write of `spans[i]` (start, length).
pub open spec fn committed_run(ms: Seq<SimpleMemory>, spans: Seq<(int, int)>) -> bool {
    &&& ms.len() == spans.len() + 1
    &&& forall|i: int|
        0 <= i < spans.len() ==> #[trigger] committed_write(ms[i], ms[i + 1], spans[i].0, spans[i].1)
            && ms[i + 1]@.len() == ms[i]@.len()
}

/// Whether a written span `(start, length)` covers a byte of `[o, o + w)`.
pub open spec fn touches(span: (int, int), o: int, w: int) -> bool {
    span.1 > 0 && span.0 < o + w && o < span.0 + span.1
}

/// Two version runs with the same snapshot encoding are equal at each index.
proof fn lemma_encode_injective_at(s0: Seq<u64>, s1: Seq<u64>, i: int)
    requires
        s0.len() == s1.len(),
        0 <= i < s0.len(),
        encode_versions(s0) == encode_versions(s1),
    ensures
        s0[i] == s1[i],
{
    let e0 = encode_versions(s0);
    let e1 = encode_versions(s1);
    assert forall|k: int| 0 <= k < 8 implies #[trigger] byte_of(s0[i], k) == byte_of(s1[i], k) by {
        assert((i * 8 + k) / 8 == i && (i * 8 + k) % 8 == k) by (nonlinear_arith)
            requires
                0 <= k < 8,
                0 <= i,
        ;
        assert(i * 8 + k < s0.len() * 8) by (nonlinear_arith)
            requires
                0 <= k < 8,
                0 <= i < s0.len(),
        ;
        assert(e0[i * 8 + k] == e1[i * 8 + k]);
    }
    lemma_byte_of_injective(s0[i], s1[i]);
}

/// What the first `j` writes of a run do to `[o, o + w)`: the clock has
/// advanced by `j`; if none of them covered a byte of the span its versions
/// are those it started with; if one did, some byte of the span carries a
/// version newer than every version at the start.
proof fn lemma_run_prefix(ms: Seq<SimpleMemory>, spans: Seq<(int, int)>, o: int, w: int, j: int)
    requires
        committed_run(ms, spans),
        versions_bounded(ms[0]),
        ms[0].clock() + spans.len() <= u64::MAX,
        0 <= o,
        0 < w,
        o + w <= ms[0]@.len(),
        0 <= j <= spans.len(),
    ensures
        ms[j].clock() == ms[0].clock() + j,
        ms[j]@.len() == ms[0]@.len(),
        versions_bounded(ms[j]),
        (forall|i: int| 0 <= i < j ==> !#[trigger] touches(spans[i], o, w)) ==> ms[j].versions().subrange(
            o,
            o + w,
        ) == ms[0].versions().subrange(o, o + w),
        (exists|i: int| 0 <= i < j && #[trigger] touches(spans[i], o, w)) ==> exists|p: int|
            o <= p < o + w && #[trigger] ms[j].versions()[p] > ms[0].clock(),
    decreases j,
{
    if j > 0 {
        let i = j - 1;
        lemma_run_prefix(ms, spans, o, w, i);
        assert(committed_run(ms, spans));
        assert(0 <= i < spans.len());
        assert(committed_write(ms[i], ms[i + 1], spans[i].0, spans[i].1));
        assert(ms[i + 1]@.len() == ms[i]@.len());
        assert(ms[i + 1] == ms[j]);
        ms[i].lemma_versions_len();
        ms[j].lemma_versions_len();
        lemma_commit_keeps_versions_bounded(ms[i], ms[j], spans[i].0, spans[i].1);
        let vj = ms[j].versions();
        let vi = ms[i].versions();
        if forall|q: int| 0 <= q < j ==> !#[trigger] touches(spans[q], o, w) {
            assert(forall|q: int| 0 <= q < i ==> !#[trigger] touches(spans[q], o, w)) by {
                assert forall|q: int| 0 <= q < i implies !#[trigger] touches(spans[q], o, w) by {
                    assert(!touches(spans[q], o, w));
                }
            }
            assert(!touches(spans[i], o, w));
            assert(vj.subrange(o, o + w) =~= vi.subrange(o, o + w));
        }
        if exists|q: int| 0 <= q < j && #[trigger] touches(spans[q], o, w) {
            if touches(spans[i], o, w) {
                let p = if spans[i].0 > o {
                    spans[i].0
                } else {
                    o
                };
                assert(vj[p] == ms[j].clock());
                assert(vj[p] > ms[0].clock());
            } else {
                let q = choose|q: int| 0 <= q < j && #[trigger] touches(spans[q], o, w);
                assert(q < i);
                assert(exists|q2: int| 0 <= q2 < i && #[trigger] touches(spans[q2], o, w));
                let p = choose|p: int| o <= p < o + w && #[trigger] vi[p] > ms[0].clock();
                assert(vj[p] == vi[p] || vj[p] == ms[j].clock());
                assert(vj[p] > ms[0].clock());
            }
        }
    } else {
        assert(ms[0].versions().subrange(o, o + w) =~= ms[0].versions().subrange(o, o + w));
    }
}

/// Over any run of committed writes (the version clock not wrapping), the
/// snapshot of a span `[o, o + w)` taken at the start still matches at the
/// end exactly when no write of the run covered a byte of the span.
pub proof fn lemma_run_keeps_snapshot_iff_untouched(ms: Seq<SimpleMemory>, spans: Seq<(int, int)>, o: int, w: int)
    requires
        committed_run(ms, spans),
        versions_bounded(ms[0]),
        ms[0].clock() + spans.len() <= u64::MAX,
        0 <= o,
        0 < w,
        o + w <= ms[0]@.len(),
    ensures
        (encode_versions(ms.last().versions().subrange(o, o + w)) == encode_versions(
            ms[0].versions().subrange(o, o + w),
        )) <==> (forall|i: int| 0 <= i < spans.len() ==> !#[trigger] touches(spans[i], o, w)),
{
    let n = spans.len() as int;
    lemma_run_prefix(ms, spans, o, w, n);
    ms[0].lemma_versions_len();
    ms[n].lemma_versions_len();
    assert(ms.last() == ms[n]);
    if exists|i: int| 0 <= i < n && #[trigger] touches(spans[i], o, w) {
        let p = choose|p: int| o <= p < o + w && #[trigger] ms[n].versions()[p] > ms[0].clock();
        let s0 = ms[0].versions().subrange(o, o + w);
        let s1 = ms[n].versions().subrange(o, o + w);
        assert(s0[p - o] <= ms[0].clock());
        if encode_versions(s1) == encode_versions(s0) {
            lemma_encode_injective_at(s0, s1, p - o);
        }
    }
}

/// The low bytes of a value narrowed to a word, and to a halfword, are the
/// value's own low bytes.
pub proof fn lemma_narrow_bytes(value: u64)
    by (bit_vector)
    ensures
        ((value as u32) as u64) as u8 == value as u8,
        (((value as u32) as u64) >> 8u64) as u8 == (value >> 8u64) as u8,
        (((value as u32) as u64) >> 16u64) as u8 == (value >> 16u64) as u8,
        (((value as u32) as u64) >> 24u64) as u8 == (value >> 24u64) as u8,
        ((value as u16) as u64) as u8 == value as u8,
        (((value as u16) as u64) >> 8u64) as u8 == (value >> 8u64) as u8,
{
}

/// Storing a doubleword and reading it back gives the stored value.
pub proof fn lemma_le64_store(b: Seq<u8>, a: int, v: u64)
    requires
        0 <= a,
        a + 8 <= b.len(),
    ensures
        le64(store_le(b, a, 8, v), a) == v,
{
    let s = store_le(b, a, 8, v);
    assert(s[a] == v as u8);
    assert(s[a + 1] == (v >> 8u64) as u8);
    assert(s[a + 2] == (v >> 16u64) as u8);
    assert(s[a + 3] == (v >> 24u64) as u8);
    assert(s[a + 4] == (v >> 32u64) as u8);
    assert(s[a + 5] == (v >> 40u64) as u8);
    assert(s[a + 6] == (v >> 48u64) as u8);
    assert(s[a + 7] == (v >> 56u64) as u8);
    assert(((v as u8) as u64) | ((((v >> 8u64) as u8) as u64) << 8u64) | ((((v >> 16u64) as u8)
        as u64) << 16u64) | ((((v >> 24u64) as u8) as u64) << 24u64) | ((((v >> 32u64) as u8)
        as u64) << 32u64) | ((((v >> 40u64) as u8) as u64) << 40u64) | ((((v >> 48u64) as u8)
        as u64) << 48u64) | ((((v >> 56u64) as u8) as u64) << 56u64) == v) by (bit_vector);
}

/// Storing a word and reading it back gives the stored value.
pub proof fn lemma_le32_store(b: Seq<u8>, a: int, v: u32)
    requires
        0 <= a,
        a + 4 <= b.len(),
    ensures
        le32(store_le(b, a, 4, v as u64), a) == v,
{
    let s = store_le(b, a, 4, v as u64);
    let w = v as u64;
    assert(s[a] == w as u8);
    assert(s[a + 1] == (w >> 8u64) as u8);
    assert(s[a + 2] == (w >> 16u64) as u8);
    assert(s[a + 3] == (w >> 24u64) as u8);
    assert(((w as u8) as u32) | ((((w >> 8u64) as u8) as u32) << 8u32) | ((((w >> 16u64) as u8)
        as u32) << 16u32) | ((((w >> 24u64) as u8) as u32) << 24u32) == v) by (bit_vector)
        requires
            w == v as u64,
    ;
}

/// Storing a halfword and reading it back gives the stored value.
pub proof fn lemma_le16_store(b: Seq<u8>, a: int, v: u16)
    requires
        0 <= a,
        a + 2 <= b.len(),
    ensures
        le16(store_le(b, a, 2, v as u64), a) == v,
{
    let s = store_le(b, a, 2, v as u64);
    let w = v as u64;
    assert(s[a] == w as u8);
    assert(s[a + 1] == (w >> 8u64) as u8);
    assert(((w as u8) as u16) | ((((w >> 8u64) as u8) as u16) << 8u16) == v) by (bit_vector)
        requires
            w == v as u64,
    ;
}

/// Flat byte-addressed memory with committed-write versions.
pub struct SimpleMemory {
    /// Each byte paired with the version of the last committed write covering it.
    cells: Vec<(u8, u64)>,
    next_version: u64,
}

/// The old bytes of an atomic load-reserved, and the version snapshot of its span.
#[derive(Debug, Clone, PartialEq, Eq)]
pub struct LoadReservedOutcome {
    /// The span bytes, zero-padded to eight.
    pub old_bytes: [u8; 8],
    /// The committed-write versions of the span, eight bytes per byte of span.
    pub snapshot: Vec<u8>,
}

impl View for SimpleMemory {
    type V = Seq<u8>;

    closed spec fn view(&self) -> Seq<u8> {
        Seq::new(self.cells@.len(), |i: int| self.cells@[i].0)
    }
}

impl SimpleMemory {
    /// The per-byte committed-write versions (0 = never written).
    pub closed spec fn versions(&self) -> Seq<u64> {
        Seq::new(self.cells@.len(), |i: int| self.cells@[i].1)
    }

    /// The version the next committed write receives.
    pub closed spec fn clock(&self) -> u64 {
        self.next_version
    }

    /// The number of bytes.
    pub open spec fn len(&self) -> nat {
        self@.len()
    }

    /// There is one version per byte.
    pub proof fn lemma_versions_len(&self)
        ensures
            self.versions().len() == self@.len(),
    {
    }

    /// Creates `size` zero bytes, none of them written yet.
    pub fn new(size: usize) -> (r: Self)
        ensures
            r@ == Seq::new(size as nat, |i: int| 0u8),
            r.versions() == Seq::new(size as nat, |i: int| 0u64),
            r.clock() == 0,
    {
        let mut cells: Vec<(u8, u64)> = Vec::with_capacity(size);
        let mut i: usize = 0;
        while i < size
            invariant
                i <= size,
                cells@.len() == i,
                forall|j: int| 0 <= j < i ==> #[trigger] cells@[j] == (0u8, 0u64),
            decreases size - i,
        {
            cells.push((0u8, 0u64));
            i = i + 1;
        }
        let r = SimpleMemory { cells, next_version: 0 };
        assert(r@ =~= Seq::new(size as nat, |i: int| 0u8));
        assert(r.versions() =~= Seq::new(size as nat, |i: int| 0u64));
        r
    }

    /// Takes `data` as the memory contents, none of it written yet.
    pub fn from_data(data: Vec<u8>) -> (r: Self)
        ensures
            r@ == data@,
            r.versions() == Seq::new(data@.len(), |i: int| 0u64),
            r.clock() == 0,
    {
        let mut cells: Vec<(u8, u64)> = Vec::with_capacity(data.len());
        let mut i: usize = 0;
        while i < data.len()
            invariant
                i <= data@.len(),
                cells@.len() == i,
                forall|j: int| 0 <= j < i ==> #[trigger] cells@[j] == (data@[j], 0u64),
            decreases data@.len() - i,
        {
            cells.push((data[i], 0u64));
            i = i + 1;
        }
        let r = SimpleMemory { cells, next_version: 0 };
        assert(r@ =~= data@);
        assert(r.versions() =~= Seq::new(data@.len(), |i: int| 0u64));
        r
    }

    /// Records one committed write of `[offset, offset + len)` under a fresh version.
    fn commit(&mut self, offset: usize, len: usize)
        requires
            offset + len <= old(self)@.len(),
        ensures
            final(self)@ == old(self)@,
            len == 0 ==> final(self).versions() == old(self).versions() && final(self).clock()
                == old(self).clock(),
            len > 0 ==> final(self).clock() == old(self).clock().wrapping_add(1),
            len > 0 ==> final(self).versions() == stamp(
                old(self).versions(),
                offset as int,
                len as int,
                final(self).clock(),
            ),
    {
        if len == 0 {
            return ;
        }
        let _len = self.cells.len();
        let v = self.next_version.wrapping_add(1);
        self.next_version = v;
        let ghost old_versions = self.versions();
        let ghost old_bytes = self@;
        let mut i = offset;
        let end = offset + len;
        while i < end
            invariant
                offset <= i <= end,
                end == offset + len,
                end <= self@.len(),
                self@ == old_bytes,
                self.versions().len() == old_versions.len(),
                self.next_version == v,
                forall|j: int|
                    0 <= j < self.versions().len() ==> #[trigger] self.versions()[j] == if offset
                        <= j < i {
                        v
                    } else {
                        old_versions[j]
                    },
            decreases end - i,
        {
            self.set_version(i, v);
            i = i + 1;
        }
        assert(self.versions() =~= stamp(old_versions, offset as int, len as int, v));
    }

    fn checked_index(&self, addr: u64, width: usize) -> (r: Result<usize, MemoryError>)
        requires
            width == 1 || width == 2 || width == 4 || width == 8,
        ensures
            r matches Ok(i) ==> i == addr && access_check(self@.len(), addr, width as nat) is Ok
                && i + width <= self@.len() && self@.len() <= usize::MAX,
            r matches Err(e) ==> access_check(self@.len(), addr, width as nat) == Err::<
                (),
                MemoryError,
            >(e),
    {
        let size = self.cells.len();
        if !(addr <= u64::MAX - (width as u64 - 1)) || !(addr < size as u64 && width <= size
            - addr as usize) {
            return Err(MemoryError::InvalidAddress(addr));
        }
        if addr % (width as u64) != 0 {
            return Err(MemoryError::Misaligned(addr, width as u32));
        }
        Ok(addr as usize)
    }

    /// Writes `data` from offset 0; bytes beyond the memory size are dropped.
    /// The base address is not used.  The written prefix is recorded as one
    /// committed write.
    pub fn load_program(&mut self, data: &[u8], _base_addr: u64)
        ensures
            final(self)@ == store_bytes(
                old(self)@,
                0,
                data@.subrange(0, vstd::math::min(data@.len() as int, old(self)@.len() as int)),
            ),
    {
        let n = if data.len() < self.cells.len() {
            data.len()
        } else {
            self.cells.len()
        };
        let ghost old_data = self@;
        let mut i: usize = 0;
        while i < n
            invariant
                n <= data.len(),
                n <= self@.len(),
                self@.len() == old_data.len(),
                i <= n,
                forall|j: int|
                    0 <= j < self@.len() ==> #[trigger] self@[j] == if j < i {
                        data@[j]
                    } else {
                        old_data[j]
                    },
            decreases n - i,
        {
            self.set_byte(i, data[i]);
            i = i + 1;
        }
        let ghost stored = self@;
        self.commit(0, n);
        assert(stored =~= store_bytes(
            old_data,
            0,
            data@.subrange(0, vstd::math::min(data@.len() as int, old_data.len() as int)),
        ));
    }

    /// Reads `width` raw bytes at `addr`, with no alignment requirement.
    pub fn read_bytes(&self, addr: u64, width: usize) -> (r: Result<Vec<u8>, MemoryError>)
        ensures
            span_inside(0, self@.len(), addr, width as nat) ==> (r matches Ok(v) && v@
                == self@.subrange(addr as int, addr + width)),
            !span_inside(0, self@.len(), addr, width as nat) ==> r == Err::<Vec<u8>, MemoryError>(
                MemoryError::InvalidAddress(addr),
            ),
    {
        if !contains_range(0, self.cells.len(), addr, width) {
            return Err(MemoryError::InvalidAddress(addr));
        }
        let mut out = vec![0u8; width];
        match self.read_bytes_into(addr, &mut out) {
            Ok(()) => Ok(out),
            Err(e) => Err(e),
        }
    }

    /// Fills `output` with the raw bytes at `addr`, with no alignment requirement.
    pub fn read_bytes_into(&self, addr: u64, output: &mut [u8]) -> (r: Result<(), MemoryError>)
        ensures
            span_inside(0, self@.len(), addr, old(output)@.len()) ==> r is Ok && final(output)@
                == self@.subrange(addr as int, addr + old(output)@.len()),
            !span_inside(0, self@.len(), addr, old(output)@.len()) ==> r == Err::<(), MemoryError>(
                MemoryError::InvalidAddress(addr),
            ) && final(output)@ == old(output)@,
    {
        if !contains_range(0, self.cells.len(), addr, output.len()) {
            return Err(MemoryError::InvalidAddress(addr));
        }
        let _len = self.cells.len();
        let start = addr as usize;
        let n = output.len();
        let mut i: usize = 0;
        while i < n
            invariant
                n == output@.len(),
                start + n <= self@.len(),
                self@.len() == _len,
                start == addr,
                i <= n,
                forall|j: int| 0 <= j < i ==> #[trigger] output@[j] == self@[start + j],
            decreases n - i,
        {
            output[i] = self.byte_at(start + i);
            i = i + 1;
        }
        assert(output@ =~= self@.subrange(addr as int, addr + n));
        Ok(())
    }

    /// Writes raw bytes at `addr` with no alignment requirement; the bounds are
    /// checked before any byte is written, and the span is recorded as one
    /// committed write.
    pub fn write_bytes(&mut self, addr: u64, bytes: &[u8]) -> (r: Result<(), MemoryError>)
        ensures
            span_inside(0, old(self)@.len(), addr, bytes@.len()) ==> r is Ok && final(self)@
                == store_bytes(old(self)@, addr as int, bytes@),
            !span_inside(0, old(self)@.len(), addr, bytes@.len()) ==> r == Err::<(), MemoryError>(
                MemoryError::InvalidAddress(addr),
            ) && final(self)@ == old(self)@,
            span_inside(0, old(self)@.len(), addr, bytes@.len()) ==> committed_write(
                *old(self),
                *final(self),
                addr as int,
                bytes@.len() as int,
            ),
            !span_inside(0, old(self)@.len(), addr, bytes@.len()) ==> same_versions(
                *old(self),
                *final(self),
            ),
    {
        if !contains_range(0, self.cells.len(), addr, bytes.len()) {
            return Err(MemoryError::InvalidAddress(addr));
        }
        let _len = self.cells.len();
        let start = addr as usize;
        let n = bytes.len();
        let ghost old_data = self@;
        let ghost old_versions = self.versions();
        let ghost old_clock = self.clock();
        let mut i: usize = 0;
        while i < n
            invariant
                self.versions() == old_versions,
                self.clock() == old_clock,
                n == bytes@.len(),
                start + n <= self@.len(),
                self@.len() == _len,
                start == addr,
                self@.len() == old_data.len(),
                i <= n,
                forall|j: int|
                    0 <= j < self@.len() ==> #[trigger] self@[j] == if start <= j < start + i {
                        bytes@[j - start]
                    } else {
                        old_data[j]
                    },
            decreases n - i,
        {
            self.set_byte(start + i, bytes[i]);
            i = i + 1;
        }
        let ghost stored = self@;
        self.commit(start, n);
        assert(stored =~= store_bytes(old_data, addr as int, bytes@));
        Ok(())
    }

    /// The committed-write version of byte `i`.
    fn byte_version(&self, i: usize) -> (r: u64)
        requires
            i < self@.len(),
        ensures
            r == self.versions()[i as int],
    {
        self.cells[i].1
    }

    /// The committed-write versions of `[start, start + len)`, eight
    /// little-endian bytes per byte.
    fn snapshot(&self, start: usize, len: usize) -> (r: Vec<u8>)
        requires
            start + len <= self@.len(),
        ensures
            r@ == encode_versions(self.versions().subrange(start as int, start + len)),
    {
        let _n = self.cells.len();
        let mut snapshot: Vec<u8> = Vec::new();
        let mut i: usize = 0;
        proof {
            self.lemma_versions_len();
            assert(self.versions().subrange(start as int, start as int) =~= Seq::<u64>::empty());
            assert(encode_versions(Seq::<u64>::empty()) =~= Seq::<u8>::empty());
        }
        while i < len
            invariant
                start + len <= self@.len(),
                self@.len() == _n,
                self.versions().len() == self@.len(),
                i <= len,
                snapshot@ == encode_versions(self.versions().subrange(start as int, start + i)),
            decreases len - i,
        {
            let v = self.byte_version(start + i);
            snapshot.push(v as u8);
            snapshot.push((v >> 8) as u8);
            snapshot.push((v >> 16) as u8);
            snapshot.push((v >> 24) as u8);
            snapshot.push((v >> 32) as u8);
            snapshot.push((v >> 40) as u8);
            snapshot.push((v >> 48) as u8);
            snapshot.push((v >> 56) as u8);
            proof {
                lemma_encode_versions_push(self.versions().subrange(start as int, start + i), v);
                assert(self.versions().subrange(start as int, start + i + 1) =~= self.versions().subrange(
                    start as int,
                    start + i,
                ).push(v));
            }
            i = i + 1;
        }
        snapshot
    }

    /// One atomic read-modify-write of `[offset, offset + width)`: the old
    /// span bytes and `operand` go to `transform`, the first `width` bytes of
    /// its result are written back as one committed write, and the old bytes
    /// (zero-padded to eight) are returned.  A rejected call changes nothing.
    pub fn atomic_rmw(
        &mut self,
        offset: u64,
        width: usize,
        operand: &[u8],
        transform: impl Fn(&[u8], &[u8]) -> [u8; 8],
    ) -> (r: Result<[u8; 8], MemoryError>)
        requires
            forall|a: &[u8], b: &[u8]| #[trigger] transform.requires((a, b)),
        ensures
            width == 0 || width > 8 ==> (r matches Err(MemoryError::Protocol(_))) && *final(self)
                == *old(self),
            1 <= width <= 8 && operand@.len() != width ==> (r matches Err(MemoryError::Protocol(_)))
                && *final(self) == *old(self),
            1 <= width <= 8 && operand@.len() == width && !span_inside(
                0,
                old(self)@.len(),
                offset,
                width as nat,
            ) ==> r == Err::<[u8; 8], MemoryError>(MemoryError::InvalidAddress(offset))
                && *final(self) == *old(self),
            1 <= width <= 8 && operand@.len() == width && span_inside(
                0,
                old(self)@.len(),
                offset,
                width as nat,
            ) ==> (r matches Ok(prior) && prior@ == padded8(
                old(self)@.subrange(offset as int, offset + width),
            ) && exists|a: &[u8], new: [u8; 8]|
                {
                    &&& a@ == old(self)@.subrange(offset as int, offset + width)
                    &&& #[trigger] transform.ensures((a, operand), new)
                    &&& final(self)@ == store_bytes(
                        old(self)@,
                        offset as int,
                        new@.subrange(0, width as int),
                    )
                }) && committed_write(*old(self), *final(self), offset as int, width as int),
    {
        if width == 0 || width > 8 {
            return Err(MemoryError::Protocol("atomic span width must be between one and eight bytes".to_string()));
        }
        if operand.len() != width {
            return Err(MemoryError::Protocol("atomic operand does not match the span width".to_string()));
        }
        if !contains_range(0, self.cells.len(), offset, width) {
            return Err(MemoryError::InvalidAddress(offset));
        }
        let _len = self.cells.len();
        let start = offset as usize;
        let ghost m0 = self@;
        let mut old = [0u8; 8];
        let mut span: Vec<u8> = Vec::new();
        let mut i: usize = 0;
        while i < width
            invariant
                1 <= width <= 8,
                start == offset,
                start + width <= self@.len(),
                self@.len() == _len,
                i <= width,
                old@.len() == 8,
                forall|j: int|
                    0 <= j < 8 ==> #[trigger] old@[j] == if j < i {
                        self@[start + j]
                    } else {
                        0u8
                    },
                span@ == self@.subrange(start as int, start + i),
            decreases width - i,
        {
            let b = self.byte_at(start + i);
            old[i] = b;
            span.push(b);
            assert(span@ =~= self@.subrange(start as int, start + i + 1));
            i = i + 1;
        }
        let new = transform(span.as_slice(), operand);
        let ghost old_versions = self.versions();
        let ghost old_clock = self.clock();
        let mut k: usize = 0;
        while k < width
            invariant
                1 <= width <= 8,
                start == offset,
                start + width <= self@.len(),
                self@.len() == m0.len(),
                self@.len() == _len,
                self.versions() == old_versions,
                self.clock() == old_clock,
                k <= width,
                forall|j: int|
                    0 <= j < self@.len() ==> #[trigger] self@[j] == if start <= j < start + k {
                        new@[j - start]
                    } else {
                        m0[j]
                    },
            decreases width - k,
        {
            self.set_byte(start + k, new[k]);
            k = k + 1;
        }
        assert(self@ =~= store_bytes(m0, offset as int, new@.subrange(0, width as int)));
        self.commit(start, width);
        assert(old@ =~= padded8(m0.subrange(offset as int, offset + width)));
        Ok(old)
    }

    /// One atomic load-reserved: the old span bytes, zero-padded to eight,
    /// and the committed-write versions of the span, eight little-endian
    /// bytes per byte of span.  Memory is not changed.
    pub fn atomic_load_reserved(&self, offset: u64, width: usize) -> (r: Result<
        LoadReservedOutcome,
        MemoryError,
    >)
        ensures
            width == 0 || width > 8 ==> r matches Err(MemoryError::Protocol(_)),
            1 <= width <= 8 && !span_inside(0, self@.len(), offset, width as nat) ==> r == Err::<
                LoadReservedOutcome,
                MemoryError,
            >(MemoryError::InvalidAddress(offset)),
            1 <= width <= 8 && span_inside(0, self@.len(), offset, width as nat) ==> (r matches Ok(
                o,
            ) && o.old_bytes@ == padded8(self@.subrange(offset as int, offset + width))
                && o.snapshot@ == encode_versions(
                self.versions().subrange(offset as int, offset + width),
            )),
    {
        if width == 0 || width > 8 {
            return Err(MemoryError::Protocol("atomic span width must be between one and eight bytes".to_string()));
        }
        if !contains_range(0, self.cells.len(), offset, width) {
            return Err(MemoryError::InvalidAddress(offset));
        }
        let _len = self.cells.len();
        let start = offset as usize;
        let mut old = [0u8; 8];
        let mut i: usize = 0;
        while i < width
            invariant
                1 <= width <= 8,
                start == offset,
                start + width <= self@.len(),
                self@.len() == _len,
                i <= width,
                old@.len() == 8,
                forall|j: int|
                    0 <= j < 8 ==> #[trigger] old@[j] == if j < i {
                        self@[start + j]
                    } else {
                        0u8
                    },
            decreases width - i,
        {
            old[i] = self.byte_at(start + i);
            i = i + 1;
        }
        let snapshot = self.snapshot(start, width);
        assert(old@ =~= padded8(self@.subrange(offset as int, offset + width)));
        Ok(LoadReservedOutcome { old_bytes: old, snapshot })
    }

    /// One atomic store-conditional.  After the width, payload and span
    /// checks, the echoed snapshot is compared with the current versions of
    /// the reserved span: if any byte was covered by a committed write since
    /// the snapshot was taken the result is `Ok(false)` and nothing changes;
    /// otherwise the payload is written, recorded as one committed write, and
    /// the result is `Ok(true)`.
    pub fn atomic_store_conditional(
        &mut self,
        offset: u64,
        width: usize,
        payload: &[u8],
        reserved_offset: u64,
        reserved_width: usize,
        snapshot: &[u8],
    ) -> (r: Result<bool, MemoryError>)
        ensures
            sc_precheck(old(self)@.len(), offset, width, payload@.len(), reserved_offset, reserved_width, snapshot@.len())
                == Some(ScRejection::Protocol) ==> (r matches Err(MemoryError::Protocol(_))) && *final(self) == *old(self),
            sc_precheck(old(self)@.len(), offset, width, payload@.len(), reserved_offset, reserved_width, snapshot@.len())
                == Some(ScRejection::InvalidAddress(offset)) ==> r == Err::<bool, MemoryError>(
                MemoryError::InvalidAddress(offset),
            ) && *final(self) == *old(self),
            sc_precheck(old(self)@.len(), offset, width, payload@.len(), reserved_offset, reserved_width, snapshot@.len())
                is None ==> {
                let current = encode_versions(
                    old(self).versions().subrange(reserved_offset as int, reserved_offset + reserved_width),
                );
                &&& current != snapshot@ ==> r == Ok::<bool, MemoryError>(false) && *final(self) == *old(self)
                &&& current == snapshot@ ==> r == Ok::<bool, MemoryError>(true) && final(self)@ == store_bytes(
                    old(self)@,
                    offset as int,
                    payload@,
                ) && committed_write(*old(self), *final(self), offset as int, width as int)
            },
    {
        if width == 0 || width > 8 {
            return Err(MemoryError::Protocol("atomic span width must be between one and eight bytes".to_string()));
        }
        if payload.len() != width {
            return Err(MemoryError::Protocol("conditional-store payload does not match the span width".to_string()));
        }
        if !contains_range(0, self.cells.len(), offset, width) {
            return Err(MemoryError::InvalidAddress(offset));
        }
        if !contains_range(0, self.cells.len(), reserved_offset, reserved_width) {
            return Err(MemoryError::Protocol("reservation context describes a span outside this storage".to_string()));
        }
        if snapshot.len() == 0 || snapshot.len() / 8 != reserved_width || snapshot.len() % 8 != 0 {
            return Err(MemoryError::Protocol("committed-write snapshot does not match the reserved span".to_string()));
        }
        if self.span_overwritten(reserved_offset as usize, reserved_width, snapshot) {
            return Ok(false);
        }
        match self.write_bytes(offset, payload) {
            Ok(()) => Ok(true),
            Err(e) => Err(e),
        }
    }

    fn span_overwritten(&self, start: usize, len: usize, snapshot: &[u8]) -> (r: bool)
        requires
            start + len <= self@.len(),
            snapshot@.len() == len * 8,
        ensures
            r == (encode_versions(self.versions().subrange(start as int, start + len)) != snapshot@),
    {
        let _len = self.cells.len();
        let _slen = snapshot.len();
        let ghost cur = encode_versions(self.versions().subrange(start as int, start + len));
        let mut i: usize = 0;
        while i < len
            invariant
                start + len <= self@.len(),
                self@.len() == _len,
                snapshot@.len() == len * 8,
                snapshot@.len() == _slen,
                cur == encode_versions(self.versions().subrange(start as int, start + len)),
                cur.len() == len * 8,
                i <= len,
                forall|j: int| 0 <= j < i * 8 ==> #[trigger] cur[j] == snapshot@[j],
            decreases len - i,
        {
            let v = self.byte_version(start + i);
            assert(i * 8 + 8 <= len * 8) by (nonlinear_arith)
                requires
                    i < len,
            ;
            let b = i * 8;
            proof {
                assert(self.versions().subrange(start as int, start + len)[i as int] == v);
                assert forall|k: int| 0 <= k < 8 implies #[trigger] cur[b + k] == byte_of(v, k) by {
                    assert((b + k) / 8 == i && (b + k) % 8 == k) by (nonlinear_arith)
                        requires
                            b == i * 8,
                            0 <= k < 8,
                    ;
                }
            }
            let mut k: usize = 0;
            while k < 8
                invariant
                    cur == encode_versions(self.versions().subrange(start as int, start + len)),
                    cur.len() == len * 8,
                    b + 8 <= snapshot@.len(),
                    snapshot@.len() == len * 8,
                    b == i * 8,
                    k <= 8,
                    forall|q: int| 0 <= q < 8 ==> #[trigger] cur[b + q] == byte_of(v, q),
                    forall|q: int| 0 <= q < k ==> cur[b + q] == #[trigger] snapshot@[b + q],
                decreases 8 - k,
            {
                if snapshot[b + k] != byte_of_exec(v, k) {
                    assert(cur[b + k] != snapshot@[b + k]);
                    return true;
                }
                k = k + 1;
            }
            proof {
                assert forall|j: int| 0 <= j < (i + 1) * 8 implies #[trigger] cur[j] == snapshot@[j] by {
                    if j >= i * 8 {
                        assert(cur[b + (j - b)] == snapshot@[b + (j - b)]);
                    }
                }
            }
            i = i + 1;
        }
        assert(cur =~= snapshot@);
        false
    }

    /// The same as `read_bytes`.
    pub fn read_raw(&self, addr: u64, width: usize) -> (r: Result<Vec<u8>, MemoryError>)
        ensures
            span_inside(0, self@.len(), addr, width as nat) ==> (r matches Ok(v) && v@
                == self@.subrange(addr as int, addr + width)),
            !span_inside(0, self@.len(), addr, width as nat) ==> r == Err::<Vec<u8>, MemoryError>(
                MemoryError::InvalidAddress(addr),
            ),
    {
        self.read_bytes(addr, width)
    }

    /// The same as `write_bytes`.
    pub fn write_raw(&mut self, addr: u64, bytes: &[u8]) -> (r: Result<(), MemoryError>)
        ensures
            span_inside(0, old(self)@.len(), addr, bytes@.len()) ==> r is Ok && final(self)@
                == store_bytes(old(self)@, addr as int, bytes@),
            !span_inside(0, old(self)@.len(), addr, bytes@.len()) ==> r == Err::<(), MemoryError>(
                MemoryError::InvalidAddress(addr),
            ) && final(self)@ == old(self)@,
            span_inside(0, old(self)@.len(), addr, bytes@.len()) ==> committed_write(
                *old(self),
                *final(self),
                addr as int,
                bytes@.len() as int,
            ),
            !span_inside(0, old(self)@.len(), addr, bytes@.len()) ==> same_versions(
                *old(self),
                *final(self),
            ),
    {
        self.write_bytes(addr, bytes)
    }

    fn store_le_bytes(&mut self, i: usize, width: usize, v: u64)
        requires
            width == 1 || width == 2 || width == 4 || width == 8,
            i + width <= old(self)@.len(),
        ensures
            final(self)@ == store_le(old(self)@, i as int, width as int, v),
            final(self).versions() == old(self).versions(),
            final(self).clock() == old(self).clock(),
    {
        let _len = self.cells.len();
        let ghost old_data = self@;
        self.set_byte(i, v as u8);
        if width >= 2 {
            self.set_byte(i + 1, (v >> 8) as u8);
        }
        if width >= 4 {
            self.set_byte(i + 2, (v >> 16) as u8);
            self.set_byte(i + 3, (v >> 24) as u8);
        }
        if width == 8 {
            self.set_byte(i + 4, (v >> 32) as u8);
            self.set_byte(i + 5, (v >> 40) as u8);
            self.set_byte(i + 6, (v >> 48) as u8);
            self.set_byte(i + 7, (v >> 56) as u8);
        }
        assert(self@ =~= store_le(old_data, i as int, width as int, v));
    }
    fn byte_at(&self, i: usize) -> (r: u8)
        requires
            i < self@.len(),
        ensures
            r == self@[i as int],
    {
        self.cells[i].0
    }

    fn set_byte(&mut self, i: usize, b: u8)
        requires
            i < old(self)@.len(),
        ensures
            final(self)@ == old(self)@.update(i as int, b),
            final(self).versions() == old(self).versions(),
            final(self).clock() == old(self).clock(),
    {
        let c = self.cells[i];
        self.cells.set(i, (b, c.1));
        assert(self@ =~= old(self)@.update(i as int, b));
        assert(self.versions() =~= old(self).versions());
    }

    fn set_version(&mut self, i: usize, v: u64)
        requires
            i < old(self)@.len(),
        ensures
            final(self)@ == old(self)@,
            final(self).versions() == old(self).versions().update(i as int, v),
            final(self).clock() == old(self).clock(),
    {
        let c = self.cells[i];
        self.cells.set(i, (c.0, v));
        assert(self@ =~= old(self)@);
        assert(self.versions() =~= old(self).versions().update(i as int, v));
    }
}

fn byte_of_exec(v: u64, k: usize) -> (r: u8)
    requires
        k < 8,
    ensures
        r == byte_of(v, k as int),
{
    if k == 0 {
        v as u8
    } else if k == 1 {
        (v >> 8) as u8
    } else if k == 2 {
        (v >> 16) as u8
    } else if k == 3 {
        (v >> 24) as u8
    } else if k == 4 {
        (v >> 32) as u8
    } else if k == 5 {
        (v >> 40) as u8
    } else if k == 6 {
        (v >> 48) as u8
    } else {
        (v >> 56) as u8
    }
}

/// Whether `[addr, addr + width)` is a non-empty range inside
/// `[base, base + size)` that does not wrap.
pub fn contains_range(base: u64, size: usize, addr: u64, width: usize) -> (r: bool)
    ensures
        r == span_inside(base, size as nat, addr, width as nat),
{
    if width == 0 {
        return false;
    }
    if addr > u64::MAX - (width as u64 - 1) {
        return false;
    }
    if addr < base {
        return false;
    }
    let offset = addr - base;
    (offset as u128) < (size as u128) && (width as u128) <= (size as u128) - (offset as u128)
}

impl MemoryInterface for SimpleMemory {
    fn read_dword(&self, addr: u64) -> (r: Result<u64, MemoryError>)
        ensures
            r == checked(access_check(self@.len(), addr, 8), le64(self@, addr as int)),
    {
        let i = match self.checked_index(addr, 8) {
            Ok(i) => i,
            Err(e) => return Err(e),
        };
        Ok((self.byte_at(i) as u64) | ((self.byte_at(i + 1) as u64) << 8) | ((self.byte_at(i + 2)
            as u64) << 16) | ((self.byte_at(i + 3) as u64) << 24) | ((self.byte_at(i + 4) as u64)
            << 32) | ((self.byte_at(i + 5) as u64) << 40) | ((self.byte_at(i + 6) as u64) << 48)
            | ((self.byte_at(i + 7) as u64) << 56))
    }

    fn read_word(&self, addr: u64) -> (r: Result<u32, MemoryError>)
        ensures
            r == checked(access_check(self@.len(), addr, 4), le32(self@, addr as int)),
    {
        let i = match self.checked_index(addr, 4) {
            Ok(i) => i,
            Err(e) => return Err(e),
        };
        Ok((self.byte_at(i) as u32) | ((self.byte_at(i + 1) as u32) << 8) | ((self.byte_at(i + 2)
            as u32) << 16) | ((self.byte_at(i + 3) as u32) << 24))
    }

    fn read_half(&self, addr: u64) -> (r: Result<u16, MemoryError>)
        ensures
            r == checked(access_check(self@.len(), addr, 2), le16(self@, addr as int)),
    {
        let i = match self.checked_index(addr, 2) {
            Ok(i) => i,
            Err(e) => return Err(e),
        };
        Ok((self.byte_at(i) as u16) | ((self.byte_at(i + 1) as u16) << 8))
    }

    fn read_byte(&self, addr: u64) -> (r: Result<u8, MemoryError>)
        ensures
            r == checked(access_check(self@.len(), addr, 1), self@[addr as int]),
    {
        let i = match self.checked_index(addr, 1) {
            Ok(i) => i,
            Err(e) => return Err(e),
        };
        Ok(self.byte_at(i))
    }

    fn read_word_zext(&self, addr: u64) -> (r: Result<u64, MemoryError>)
        ensures
            r == checked(access_check(self@.len(), addr, 4), le32(self@, addr as int) as u64),
    {
        match self.read_word(addr) {
            Ok(v) => Ok(v as u64),
            Err(e) => Err(e),
        }
    }

    fn read_half_zext(&self, addr: u64) -> (r: Result<u64, MemoryError>)
        ensures
            r == checked(access_check(self@.len(), addr, 2), le16(self@, addr as int) as u64),
    {
        match self.read_half(addr) {
            Ok(v) => Ok(v as u64),
            Err(e) => Err(e),
        }
    }

    fn read_byte_zext(&self, addr: u64) -> (r: Result<u64, MemoryError>)
        ensures
            r == checked(access_check(self@.len(), addr, 1), self@[addr as int] as u64),
    {
        match self.read_byte(addr) {
            Ok(v) => Ok(v as u64),
            Err(e) => Err(e),
        }
    }

    fn read_word_sext(&self, addr: u64) -> (r: Result<u64, MemoryError>)
        ensures
            r == checked(access_check(self@.len(), addr, 4), sext32(le32(self@, addr as int))),
    {
        match self.read_word(addr) {
            Ok(v) => Ok(sign_extend_32(v)),
            Err(e) => Err(e),
        }
    }

    fn read_half_sext(&self, addr: u64) -> (r: Result<u64, MemoryError>)
        ensures
            r == checked(access_check(self@.len(), addr, 2), sext16(le16(self@, addr as int))),
    {
        match self.read_half(addr) {
            Ok(v) => Ok(
                if v < 0x8000 {
                    v as u64
                } else {
                    v as u64 + 0xFFFF_FFFF_FFFF_0000
                },
            ),
            Err(e) => Err(e),
        }
    }

    fn read_byte_sext(&self, addr: u64) -> (r: Result<u64, MemoryError>)
        ensures
            r == checked(access_check(self@.len(), addr, 1), sext8(self@[addr as int])),
    {
        match self.read_byte(addr) {
            Ok(v) => Ok(
                if v < 0x80 {
                    v as u64
                } else {
                    v as u64 + 0xFFFF_FFFF_FFFF_FF00
                },
            ),
            Err(e) => Err(e),
        }
    }

    fn write_dword(&mut self, addr: u64, value: u64) -> (r: Result<(), MemoryError>)
        ensures
            r == access_check(old(self)@.len(), addr, 8),
            r is Ok ==> committed_write(*old(self), *final(self), addr as int, 8),
            r is Err ==> same_versions(*old(self), *final(self)),
            r is Ok ==> final(self)@ == store_le(old(self)@, addr as int, 8, value),
            r is Err ==> final(self)@ == old(self)@,
    {
        let i = match self.checked_index(addr, 8) {
            Ok(i) => i,
            Err(e) => return Err(e),
        };
        self.store_le_bytes(i, 8, value);
        self.commit(i, 8);
        Ok(())
    }

    fn write_word(&mut self, addr: u64, value: u32) -> (r: Result<(), MemoryError>)
        ensures
            r == access_check(old(self)@.len(), addr, 4),
            r is Ok ==> committed_write(*old(self), *final(self), addr as int, 4),
            r is Err ==> same_versions(*old(self), *final(self)),
            r is Ok ==> final(self)@ == store_le(old(self)@, addr as int, 4, value as u64),
            r is Err ==> final(self)@ == old(self)@,
    {
        let i = match self.checked_index(addr, 4) {
            Ok(i) => i,
            Err(e) => return Err(e),
        };
        self.store_le_bytes(i, 4, value as u64);
        self.commit(i, 4);
        Ok(())
    }

    fn write_half(&mut self, addr: u64, value: u16) -> (r: Result<(), MemoryError>)
        ensures
            r == access_check(old(self)@.len(), addr, 2),
            r is Ok ==> committed_write(*old(self), *final(self), addr as int, 2),
            r is Err ==> same_versions(*old(self), *final(self)),
            r is Ok ==> final(self)@ == store_le(old(self)@, addr as int, 2, value as u64),
            r is Err ==> final(self)@ == old(self)@,
    {
        let i = match self.checked_index(addr, 2) {
            Ok(i) => i,
            Err(e) => return Err(e),
        };
        self.store_le_bytes(i, 2, value as u64);
        self.commit(i, 2);
        Ok(())
    }

    fn write_byte(&mut self, addr: u64, value: u8) -> (r: Result<(), MemoryError>)
        ensures
            r == access_check(old(self)@.len(), addr, 1),
            r is Ok ==> committed_write(*old(self), *final(self), addr as int, 1),
            r is Err ==> same_versions(*old(self), *final(self)),
            r is Ok ==> final(self)@ == old(self)@.update(addr as int, value),
            r is Err ==> final(self)@ == old(self)@,
    {
        let i = match self.checked_index(addr, 1) {
            Ok(i) => i,
            Err(e) => return Err(e),
        };
        self.set_byte(i, value);
        self.commit(i, 1);
        Ok(())
    }

    fn size(&self) -> (r: usize)
        ensures
            r == self@.len(),
    {
        self.cells.len()
    }
}

} // verus!
