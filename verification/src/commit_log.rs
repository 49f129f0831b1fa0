//! Spike-style commit records: one per retired instruction, naming the
//! privilege level after it, its pc, its instruction bits and the integer
//! registers it changed, and the text line of each record:
//!
//! `core   0: 3 0x0000000080000000 (0x00000297) x5  0x0000000080000000`
use vstd::prelude::*;
use crate::cpu::{CoreState, privilege_bits};
use crate::text::{dec_digits, dec_min, hex16, hex_digit_text, hex_prefix, join_text};
use crate::isa::rv64c::decoder_16bit::compressed;

verus! {

/// One retired instruction.
#[derive(Debug, Clone)]
pub struct CommitRecord {
    /// The privilege level after the instruction (User 0, Supervisor 1, Machine 3).
    pub privilege: u8,
    /// The pc of the instruction.
    pub pc: u64,
    /// The instruction bits: 16 for a compressed instruction, else 32.
    pub instruction: u32,
    /// The integer registers the instruction changed and their new values,
    /// in register order.
    pub writes: Vec<(u8, u64)>,
}

/// The registers among x1..x(n-1) whose values differ between `r0` and
/// `r1`, with their values in `r1`, in register order.
pub open spec fn changed_regs(r0: Seq<u64>, r1: Seq<u64>, n: nat) -> Seq<(u8, u64)>
    decreases n,
{
    if n <= 1 {
        Seq::empty()
    } else {
        let i = (n - 1) as nat;
        let front = changed_regs(r0, r1, i);
        if r0[i as int] != r1[i as int] {
            front.push((i as u8, r1[i as int]))
        } else {
            front
        }
    }
}

/// The record of an instruction with bits `inst` at `pc`, retired from
/// integer registers `regs0` to the state `s1`.
pub open spec fn commit_matches(rec: CommitRecord, pc: u64, regs0: Seq<u64>, s1: CoreState, inst: u32) -> bool {
    &&& rec.privilege == privilege_bits(s1.privilege)
    &&& rec.pc == pc
    &&& rec.instruction == inst
    &&& rec.writes@ == changed_regs(regs0, s1.regs@, 32)
}

/// The lowest `n` hexadecimal digits of `v`, most significant first.
pub open spec fn hex_tail(v: u64, n: nat) -> Seq<char>
    decreases n,
{
    if n == 0 {
        Seq::empty()
    } else {
        hex_tail(v >> 4u64, (n - 1) as nat) + hex_digit_text(v & 0xF)
    }
}

/// The text of one register write: ` x<n>` padded to four columns, then
/// `0x` and sixteen hexadecimal digits.
pub open spec fn write_text(w: (u8, u64)) -> Seq<char> {
    " x"@ + dec_digits(w.0 as u64) + (if w.0 < 10 {
        "  "@
    } else {
        " "@
    }) + "0x"@ + hex_prefix(w.1, 16)
}

/// The texts of register writes, one after the other.
pub open spec fn writes_text(ws: Seq<(u8, u64)>) -> Seq<char>
    decreases ws.len(),
{
    if ws.len() == 0 {
        Seq::empty()
    } else {
        writes_text(ws.drop_last()) + write_text(ws.last())
    }
}

/// The line of a record: `core   0: `, the privilege level, the pc, the
/// instruction bits in parentheses (four hexadecimal digits for a
/// compressed instruction, eight otherwise), the register writes, and a
/// newline.
pub open spec fn commit_text(rec: CommitRecord) -> Seq<char> {
    "core   0: "@ + dec_digits(rec.privilege as u64) + " 0x"@ + hex_prefix(rec.pc, 16) + " (0x"@
        + hex_tail(rec.instruction as u64, if compressed(rec.instruction) {
        4
    } else {
        8
    }) + ")"@ + writes_text(rec.writes@) + "\n"@
}

/// The record of an instruction with bits `inst` at `pc`, retired from
/// integer registers `regs0` to the state `s1`.
pub fn commit_record(pc: u64, regs0: [u64; 32], s1: &CoreState, inst: u32) -> (r: CommitRecord)
    ensures
        commit_matches(r, pc, regs0@, *s1, inst),
{
    let mut writes: Vec<(u8, u64)> = Vec::new();
    let mut i: usize = 1;
    proof {
        assert(writes@ =~= changed_regs(regs0@, s1.regs@, 1));
    }
    while i < 32
        invariant
            1 <= i <= 32,
            writes@ == changed_regs(regs0@, s1.regs@, i as nat),
        decreases 32 - i,
    {
        if regs0[i] != s1.regs[i] {
            writes.push((i as u8, s1.regs[i]));
        }
        i = i + 1;
    }
    CommitRecord { privilege: s1.privilege.bits(), pc, instruction: inst, writes }
}

/// The lowest `n` hexadecimal digits of `v`, most significant first.
fn hex_tail_text(v: u64, n: u64) -> (r: String)
    ensures
        r@ == hex_tail(v, n as nat),
    decreases n,
{
    if n == 0 {
        proof {
            reveal_strlit("");
        }
        return join_text("", "");
    }
    let front = hex_tail_text(v >> 4, n - 1);
    join_text(front.as_str(), crate::text::hex_digit_str(v & 0xF))
}

/// The line of a record, as `commit_text` describes it.
pub fn commit_line(rec: &CommitRecord) -> (r: String)
    ensures
        r@ == commit_text(*rec),
{
    let p = dec_min(rec.privilege as u64);
    let mut t = join_text("core   0: ", p.as_str());
    t = join_text(t.as_str(), " 0x");
    let pc = hex16(rec.pc);
    t = join_text(t.as_str(), pc.as_str());
    t = join_text(t.as_str(), " (0x");
    let digits: u64 = if rec.instruction & 3 != 3 {
        4
    } else {
        8
    };
    let bits = hex_tail_text(rec.instruction as u64, digits);
    t = join_text(t.as_str(), bits.as_str());
    t = join_text(t.as_str(), ")");
    let ghost head = t@;
    let mut k: usize = 0;
    while k < rec.writes.len()
        invariant
            k <= rec.writes@.len(),
            t@ == head + writes_text(rec.writes@.subrange(0, k as int)),
        decreases rec.writes@.len() - k,
    {
        let (reg, value) = rec.writes[k];
        let d = dec_min(reg as u64);
        let mut w = join_text(" x", d.as_str());
        let pad = if reg < 10 {
            "  "
        } else {
            " "
        };
        w = join_text(w.as_str(), pad);
        w = join_text(w.as_str(), "0x");
        let v = hex16(value);
        w = join_text(w.as_str(), v.as_str());
        t = join_text(t.as_str(), w.as_str());
        proof {
            let s = rec.writes@.subrange(0, k + 1);
            assert(s.drop_last() =~= rec.writes@.subrange(0, k as int));
            assert(w@ == write_text(rec.writes@[k as int]));
        }
        k = k + 1;
    }
    proof {
        assert(rec.writes@.subrange(0, rec.writes@.len() as int) =~= rec.writes@);
    }
    join_text(t.as_str(), "\n")
}

} // verus!
