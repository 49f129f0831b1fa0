//! 32-bit RISC-V instruction decoding.
//!
//! The decoder splits a raw instruction word into its major opcode, format
//! and register/immediate fields.  Immediates are kept in their *raw*
//! encoded width (12 bits for I/S, 13 for B, 21 for J, the upper 20 bits for
//! U); sign extension happens in the execution functions.
use vstd::prelude::*;
use crate::arith::{sext12, sext13, sext21, signed64};

verus! {

/// Major opcodes (bits 6:0 of a 32-bit instruction).
#[derive(Debug, Clone, Copy, PartialEq, Eq, Structural)]
pub enum Opcode {
    Load,
    LoadFp,
    MiscMem,
    OpImm,
    Auipc,
    OpImm32,
    Store,
    StoreFp,
    Amo,
    Op,
    Lui,
    Op32,
    Madd,
    Msub,
    Nmsub,
    Nmadd,
    OpFp,
    Branch,
    Jalr,
    Jal,
    System,
}

/// The 7-bit encoding of each major opcode.
pub open spec fn opcode_bits(op: Opcode) -> u32 {
    match op {
        Opcode::Load => 0x03,
        Opcode::LoadFp => 0x07,
        Opcode::MiscMem => 0x0F,
        Opcode::OpImm => 0x13,
        Opcode::Auipc => 0x17,
        Opcode::OpImm32 => 0x1B,
        Opcode::Store => 0x23,
        Opcode::StoreFp => 0x27,
        Opcode::Amo => 0x2F,
        Opcode::Op => 0x33,
        Opcode::Lui => 0x37,
        Opcode::Op32 => 0x3B,
        Opcode::Madd => 0x43,
        Opcode::Msub => 0x47,
        Opcode::Nmsub => 0x4B,
        Opcode::Nmadd => 0x4F,
        Opcode::OpFp => 0x53,
        Opcode::Branch => 0x63,
        Opcode::Jalr => 0x67,
        Opcode::Jal => 0x6F,
        Opcode::System => 0x73,
    }
}

/// The major opcode that a 7-bit field encodes, if any.
pub open spec fn opcode_of(bits: u32) -> Option<Opcode> {
    if bits == 0x03 {
        Some(Opcode::Load)
    } else if bits == 0x07 {
        Some(Opcode::LoadFp)
    } else if bits == 0x0F {
        Some(Opcode::MiscMem)
    } else if bits == 0x13 {
        Some(Opcode::OpImm)
    } else if bits == 0x17 {
        Some(Opcode::Auipc)
    } else if bits == 0x1B {
        Some(Opcode::OpImm32)
    } else if bits == 0x23 {
        Some(Opcode::Store)
    } else if bits == 0x27 {
        Some(Opcode::StoreFp)
    } else if bits == 0x2F {
        Some(Opcode::Amo)
    } else if bits == 0x33 {
        Some(Opcode::Op)
    } else if bits == 0x37 {
        Some(Opcode::Lui)
    } else if bits == 0x3B {
        Some(Opcode::Op32)
    } else if bits == 0x43 {
        Some(Opcode::Madd)
    } else if bits == 0x47 {
        Some(Opcode::Msub)
    } else if bits == 0x4B {
        Some(Opcode::Nmsub)
    } else if bits == 0x4F {
        Some(Opcode::Nmadd)
    } else if bits == 0x53 {
        Some(Opcode::OpFp)
    } else if bits == 0x63 {
        Some(Opcode::Branch)
    } else if bits == 0x67 {
        Some(Opcode::Jalr)
    } else if bits == 0x6F {
        Some(Opcode::Jal)
    } else if bits == 0x73 {
        Some(Opcode::System)
    } else {
        None
    }
}

impl Opcode {
    /// The 7-bit encoding of this opcode.
    pub fn bits(self) -> (r: u32)
        ensures
            r == opcode_bits(self),
            r < 0x80,
    {
        match self {
            Opcode::Load => 0x03,
            Opcode::LoadFp => 0x07,
            Opcode::MiscMem => 0x0F,
            Opcode::OpImm => 0x13,
            Opcode::Auipc => 0x17,
            Opcode::OpImm32 => 0x1B,
            Opcode::Store => 0x23,
            Opcode::StoreFp => 0x27,
            Opcode::Amo => 0x2F,
            Opcode::Op => 0x33,
            Opcode::Lui => 0x37,
            Opcode::Op32 => 0x3B,
            Opcode::Madd => 0x43,
            Opcode::Msub => 0x47,
            Opcode::Nmsub => 0x4B,
            Opcode::Nmadd => 0x4F,
            Opcode::OpFp => 0x53,
            Opcode::Branch => 0x63,
            Opcode::Jalr => 0x67,
            Opcode::Jal => 0x6F,
            Opcode::System => 0x73,
        }
    }

    /// The opcode encoded by a 7-bit field, if it is a known major opcode.
    pub fn from_bits(bits: u32) -> (r: Option<Opcode>)
        ensures
            r == opcode_of(bits),
    {
        if bits == 0x03 {
            Some(Opcode::Load)
        } else if bits == 0x07 {
            Some(Opcode::LoadFp)
        } else if bits == 0x0F {
            Some(Opcode::MiscMem)
        } else if bits == 0x13 {
            Some(Opcode::OpImm)
        } else if bits == 0x17 {
            Some(Opcode::Auipc)
        } else if bits == 0x1B {
            Some(Opcode::OpImm32)
        } else if bits == 0x23 {
            Some(Opcode::Store)
        } else if bits == 0x27 {
            Some(Opcode::StoreFp)
        } else if bits == 0x2F {
            Some(Opcode::Amo)
        } else if bits == 0x33 {
            Some(Opcode::Op)
        } else if bits == 0x37 {
            Some(Opcode::Lui)
        } else if bits == 0x3B {
            Some(Opcode::Op32)
        } else if bits == 0x43 {
            Some(Opcode::Madd)
        } else if bits == 0x47 {
            Some(Opcode::Msub)
        } else if bits == 0x4B {
            Some(Opcode::Nmsub)
        } else if bits == 0x4F {
            Some(Opcode::Nmadd)
        } else if bits == 0x53 {
            Some(Opcode::OpFp)
        } else if bits == 0x63 {
            Some(Opcode::Branch)
        } else if bits == 0x67 {
            Some(Opcode::Jalr)
        } else if bits == 0x6F {
            Some(Opcode::Jal)
        } else if bits == 0x73 {
            Some(Opcode::System)
        } else {
            None
        }
    }
}

/// The `funct3` field, named after its integer-ALU meaning.
#[derive(Debug, Clone, Copy, PartialEq, Eq, Structural)]
pub enum Funct3 {
    AddSub,
    Sll,
    Slt,
    Sltu,
    Xor,
    SrlSra,
    Or,
    And,
}

/// The 3-bit encoding of each `funct3` value.
pub open spec fn funct3_bits(f: Funct3) -> u32 {
    match f {
        Funct3::AddSub => 0,
        Funct3::Sll => 1,
        Funct3::Slt => 2,
        Funct3::Sltu => 3,
        Funct3::Xor => 4,
        Funct3::SrlSra => 5,
        Funct3::Or => 6,
        Funct3::And => 7,
    }
}

/// The `funct3` value of the low three bits of a field.
pub open spec fn funct3_of(bits: u32) -> Funct3 {
    let b = bits % 8;
    if b == 0 {
        Funct3::AddSub
    } else if b == 1 {
        Funct3::Sll
    } else if b == 2 {
        Funct3::Slt
    } else if b == 3 {
        Funct3::Sltu
    } else if b == 4 {
        Funct3::Xor
    } else if b == 5 {
        Funct3::SrlSra
    } else if b == 6 {
        Funct3::Or
    } else {
        Funct3::And
    }
}

impl Funct3 {
    /// The 3-bit encoding of this value.
    pub fn bits(self) -> (r: u32)
        ensures
            r == funct3_bits(self),
            r < 8,
    {
        match self {
            Funct3::AddSub => 0,
            Funct3::Sll => 1,
            Funct3::Slt => 2,
            Funct3::Sltu => 3,
            Funct3::Xor => 4,
            Funct3::SrlSra => 5,
            Funct3::Or => 6,
            Funct3::And => 7,
        }
    }

    /// The `funct3` value encoded by the low three bits of `bits`.
    pub fn from_bits(bits: u32) -> (r: Funct3)
        ensures
            r == funct3_of(bits),
            funct3_bits(r) == bits % 8,
    {
        let b = bits % 8;
        if b == 0 {
            Funct3::AddSub
        } else if b == 1 {
            Funct3::Sll
        } else if b == 2 {
            Funct3::Slt
        } else if b == 3 {
            Funct3::Sltu
        } else if b == 4 {
            Funct3::Xor
        } else if b == 5 {
            Funct3::SrlSra
        } else if b == 6 {
            Funct3::Or
        } else {
            Funct3::And
        }
    }
}

/// Instruction formats of the 32-bit encoding.
#[derive(Debug, Clone, Copy, PartialEq, Eq, Structural)]
pub enum InstructionFormat {
    RType,
    IType,
    SType,
    BType,
    UType,
    JType,
    R4Type,
}

/// Decoding failures.
#[derive(Debug, Clone, Copy, PartialEq, Eq, Structural)]
pub enum DecodeError {
    /// The word is not a valid instruction of a supported major opcode.
    InvalidInstruction(u32),
    /// A reserved encoding (for example a compressed form with a zero immediate).
    ReservedInstruction,
    /// A well-formed encoding of an extension this simulator does not implement.
    UnimplementedInstruction,
}

/// One decoded instruction: its raw word and the fields its format carries.
#[derive(Debug, Clone, Copy, PartialEq, Eq, Structural)]
pub struct DecodedInstruction {
    /// The raw 32-bit instruction word.
    pub raw: u32,
    /// The encoding format.
    pub format: InstructionFormat,
    /// The major opcode.
    pub opcode: Opcode,
    /// `funct3`, for formats that carry it.
    pub funct3: Option<Funct3>,
    /// `funct7` (bits 31:25), for R-type and shift-immediate encodings.
    pub funct7: Option<u8>,
    /// First source register.
    pub rs1: Option<u8>,
    /// Second source register.
    pub rs2: Option<u8>,
    /// Third source register (R4-type).
    pub rs3: Option<u8>,
    /// Destination register.
    pub rd: Option<u8>,
    /// The raw (not yet sign-extended) immediate.
    pub imm: Option<u32>,
    /// Set by execution when control flow leaves the sequential path.
    pub branch_taken: bool,
}

/// Every register field that is present names one of the 32 registers.
pub open spec fn reg_ok(r: Option<u8>) -> bool {
    match r {
        Some(x) => x < 32,
        None => true,
    }
}

impl DecodedInstruction {
    /// All present register fields are below 32.
    pub open spec fn wf(&self) -> bool {
        &&& reg_ok(self.rs1)
        &&& reg_ok(self.rs2)
        &&& reg_ok(self.rs3)
        &&& reg_ok(self.rd)
    }
}

/// The destination register field (bits 11:7).
pub open spec fn rd_field(inst: u32) -> u8 {
    ((inst >> 7) & 0x1F) as u8
}

/// The `funct3` field (bits 14:12).
pub open spec fn funct3_field(inst: u32) -> u32 {
    (inst >> 12) & 0x7
}

/// The first source register field (bits 19:15).
pub open spec fn rs1_field(inst: u32) -> u8 {
    ((inst >> 15) & 0x1F) as u8
}

/// The second source register field (bits 24:20).
pub open spec fn rs2_field(inst: u32) -> u8 {
    ((inst >> 20) & 0x1F) as u8
}

/// The third source register field of R4-type (bits 31:27).
pub open spec fn rs3_field(inst: u32) -> u8 {
    (inst >> 27) as u8
}

/// The `funct7` field (bits 31:25).
pub open spec fn funct7_field(inst: u32) -> u8 {
    (inst >> 25) as u8
}

/// The raw 12-bit I-type immediate (bits 31:20).
pub open spec fn i_imm(inst: u32) -> u32 {
    inst >> 20
}

/// The raw 12-bit S-type immediate: bits 31:25 and 11:7.
pub open spec fn s_imm(inst: u32) -> u32 {
    ((inst >> 25) << 5) | ((inst >> 7) & 0x1F)
}

/// The raw 13-bit B-type offset: imm[12|10:5|4:1|11] reassembled.
pub open spec fn b_imm(inst: u32) -> u32 {
    (((inst >> 31) & 1) << 12) | (((inst >> 7) & 1) << 11) | (((inst >> 25) & 0x3F) << 5) | (((
    inst >> 8) & 0xF) << 1)
}

/// The U-type immediate: the upper 20 bits in place.
pub open spec fn u_imm(inst: u32) -> u32 {
    inst & 0xFFFF_F000
}

/// The raw 21-bit J-type offset: imm[20|10:1|11|19:12] reassembled.
pub open spec fn j_imm(inst: u32) -> u32 {
    (((inst >> 31) & 1) << 20) | (inst & 0xF_F000) | (((inst >> 20) & 1) << 11) | (((inst >> 21)
        & 0x3FF) << 1)
}

/// Whether an immediate-form shift is encoded (funct3 of SLL or SRL/SRA).
pub open spec fn is_shift_funct3(f: u32) -> bool {
    f == 1 || f == 5
}

/// The decoding of a 32-bit instruction word.
pub open spec fn decode_spec(inst: u32) -> Result<DecodedInstruction, DecodeError> {
    if inst & 3 != 3 {
        Err(DecodeError::InvalidInstruction(inst))
    } else {
        match opcode_of(inst & 0x7F) {
            None => Err(DecodeError::InvalidInstruction(inst)),
            Some(op) => {
                let f3 = funct3_field(inst);
                let base = DecodedInstruction {
                    raw: inst,
                    format: InstructionFormat::RType,
                    opcode: op,
                    funct3: None,
                    funct7: None,
                    rs1: None,
                    rs2: None,
                    rs3: None,
                    rd: None,
                    imm: None,
                    branch_taken: false,
                };
                match op {
                    Opcode::Op | Opcode::Op32 | Opcode::Amo | Opcode::OpFp => Ok(
                        DecodedInstruction {
                            format: InstructionFormat::RType,
                            funct3: Some(funct3_of(f3)),
                            funct7: Some(funct7_field(inst)),
                            rs1: Some(rs1_field(inst)),
                            rs2: Some(rs2_field(inst)),
                            rd: Some(rd_field(inst)),
                            ..base
                        },
                    ),
                    Opcode::Madd | Opcode::Msub | Opcode::Nmsub | Opcode::Nmadd => Ok(
                        DecodedInstruction {
                            format: InstructionFormat::R4Type,
                            funct3: Some(funct3_of(f3)),
                            funct7: Some(funct7_field(inst) & 3),
                            rs1: Some(rs1_field(inst)),
                            rs2: Some(rs2_field(inst)),
                            rs3: Some(rs3_field(inst)),
                            rd: Some(rd_field(inst)),
                            ..base
                        },
                    ),
                    Opcode::MiscMem => if f3 == 0 {
                        Ok(
                            DecodedInstruction {
                                format: InstructionFormat::IType,
                                funct3: Some(funct3_of(f3)),
                                rs1: Some(rs1_field(inst)),
                                rd: Some(rd_field(inst)),
                                imm: Some(i_imm(inst)),
                                ..base
                            },
                        )
                    } else {
                        Err(DecodeError::UnimplementedInstruction)
                    },
                    Opcode::Load | Opcode::LoadFp | Opcode::OpImm | Opcode::OpImm32
                    | Opcode::Jalr | Opcode::System => Ok(
                        DecodedInstruction {
                            format: InstructionFormat::IType,
                            funct3: Some(funct3_of(f3)),
                            funct7: if (op == Opcode::OpImm || op == Opcode::OpImm32)
                                && is_shift_funct3(f3) {
                                Some(funct7_field(inst))
                            } else {
                                None
                            },
                            rs1: Some(rs1_field(inst)),
                            rd: Some(rd_field(inst)),
                            imm: Some(i_imm(inst)),
                            ..base
                        },
                    ),
                    Opcode::Store | Opcode::StoreFp => Ok(
                        DecodedInstruction {
                            format: InstructionFormat::SType,
                            funct3: Some(funct3_of(f3)),
                            rs1: Some(rs1_field(inst)),
                            rs2: Some(rs2_field(inst)),
                            imm: Some(s_imm(inst)),
                            ..base
                        },
                    ),
                    Opcode::Branch => Ok(
                        DecodedInstruction {
                            format: InstructionFormat::BType,
                            funct3: Some(funct3_of(f3)),
                            rs1: Some(rs1_field(inst)),
                            rs2: Some(rs2_field(inst)),
                            imm: Some(b_imm(inst)),
                            ..base
                        },
                    ),
                    Opcode::Lui | Opcode::Auipc => Ok(
                        DecodedInstruction {
                            format: InstructionFormat::UType,
                            rd: Some(rd_field(inst)),
                            imm: Some(u_imm(inst)),
                            ..base
                        },
                    ),
                    Opcode::Jal => Ok(
                        DecodedInstruction {
                            format: InstructionFormat::JType,
                            rd: Some(rd_field(inst)),
                            imm: Some(j_imm(inst)),
                            ..base
                        },
                    ),
                }
            },
        }
    }
}

proof fn lemma_fields_bounded(inst: u32)
    by (bit_vector)
    ensures
        rd_field(inst) < 32,
        rs1_field(inst) < 32,
        rs2_field(inst) < 32,
        rs3_field(inst) < 32,
        ((inst >> 7) & 0x1F) < 32,
        ((inst >> 15) & 0x1F) < 32,
        ((inst >> 20) & 0x1F) < 32,
        (inst >> 27) < 32,
        (inst >> 25) < 128,
        (inst >> 20) < 4096,
        funct3_field(inst) < 8,
        inst & 0x7F == 0x03 || inst & 0x7F == 0x07 || inst & 0x7F == 0x0F || inst & 0x7F == 0x13
            || inst & 0x7F == 0x17 || inst & 0x7F == 0x1B || inst & 0x7F == 0x23 || inst & 0x7F == 0x27
            || inst & 0x7F == 0x2F || inst & 0x7F == 0x33 || inst & 0x7F == 0x37 || inst & 0x7F == 0x3B
            || inst & 0x7F == 0x43 || inst & 0x7F == 0x47 || inst & 0x7F == 0x4B || inst & 0x7F == 0x4F
            || inst & 0x7F == 0x53 || inst & 0x7F == 0x63 || inst & 0x7F == 0x67 || inst & 0x7F == 0x6F
            || inst & 0x7F == 0x73 ==> inst & 3 == 3,
        (((((inst >> 31u32) & 1) << 20u32) | (inst & 0xF_F000) | (((inst >> 20u32) & 1) << 11u32) | (((inst
            >> 21u32) & 0x3FF) << 1u32)) >> 11u32) & 1 == (inst >> 20u32) & 1 && (((((inst >> 31u32) & 1) << 20u32) | (inst & 0xF_F000) | (((inst >> 20u32) & 1) << 11u32) | (((inst
            >> 21u32) & 0x3FF) << 1u32)) >> 1u32) & 0x3FF == (inst >> 21u32)
            & 0x3FF && (((((inst >> 31u32) & 1) << 20u32) | (inst & 0xF_F000) | (((inst >> 20u32) & 1) << 11u32) | (((inst
            >> 21u32) & 0x3FF) << 1u32)) >> 12u32) & 0xFF == (inst >> 12u32) & 0xFF && ((((inst >> 31u32) & 1) << 20u32) | (inst & 0xF_F000) | (((inst >> 20u32) & 1) << 11u32) | (((inst
            >> 21u32) & 0x3FF) << 1u32)) >> 20u32 == inst
            >> 31u32 && ((((inst >> 31u32) & 1) << 20u32) | (inst & 0xF_F000) | (((inst >> 20u32) & 1) << 11u32) | (((inst
            >> 21u32) & 0x3FF) << 1u32)) & 1 == 0,
        (((((inst >> 31u32) & 1) << 12u32) | (((inst >> 7u32) & 1) << 11u32) | (((inst >> 25u32) & 0x3F)
            << 5u32) | (((inst >> 8u32) & 0xF) << 1u32)) >> 11u32) & 1 == (inst >> 7u32) & 1 && (((((inst >> 31u32) & 1) << 12u32) | (((inst >> 7u32) & 1) << 11u32) | (((inst >> 25u32) & 0x3F)
            << 5u32) | (((inst >> 8u32) & 0xF) << 1u32)) >> 1u32) & 0xF == (inst >> 8u32) & 0xF
            && (((((inst >> 31u32) & 1) << 12u32) | (((inst >> 7u32) & 1) << 11u32) | (((inst >> 25u32) & 0x3F)
            << 5u32) | (((inst >> 8u32) & 0xF) << 1u32)) >> 5u32) & 0x3F == (inst >> 25u32) & 0x3F && ((((inst >> 31u32) & 1) << 12u32) | (((inst >> 7u32) & 1) << 11u32) | (((inst >> 25u32) & 0x3F)
            << 5u32) | (((inst >> 8u32) & 0xF) << 1u32)) >> 12u32 == inst >> 31u32
            && ((((inst >> 31u32) & 1) << 12u32) | (((inst >> 7u32) & 1) << 11u32) | (((inst >> 25u32) & 0x3F)
            << 5u32) | (((inst >> 8u32) & 0xF) << 1u32)) & 1 == 0,
        (((inst >> 25u32) << 5u32) | ((inst >> 7u32) & 0x1F)) & 0x1F == (inst >> 7u32) & 0x1F && (((inst >> 25u32) << 5u32) | ((inst >> 7u32) & 0x1F)) >> 5u32 == inst >> 25u32,
{
}

/// The major opcode of a decoding is the one whose encoding fills bits 6:0
/// of the word; every word whose bits 6:0 encode a major opcode other than
/// MISC-MEM decodes to that opcode; a word whose low two bits are not `11`
/// never decodes.
pub proof fn lemma_decode_opcode(inst: u32, op: Opcode)
    ensures
        decode_spec(inst) matches Ok(d) ==> opcode_bits(d.opcode) == inst & 0x7F,
        inst & 0x7F == opcode_bits(op) && op != Opcode::MiscMem ==> decode_spec(inst) is Ok
            && decode_spec(inst)->Ok_0.opcode == op,
        inst & 3 != 3 ==> decode_spec(inst) is Err,
{
    lemma_fields_bounded(inst);
}

/// For every word, the decoded immediate of each format holds the
/// instruction's bits where that format puts them: a JAL immediate has
/// imm[20] = inst[31], imm[19:12] = inst[19:12], imm[11] = inst[20],
/// imm[10:1] = inst[30:21] and imm[0] = 0; a branch immediate has imm[12] =
/// inst[31], imm[11] = inst[7], imm[10:5] = inst[30:25], imm[4:1] =
/// inst[11:8] and imm[0] = 0; a store immediate has imm[11:5] = inst[31:25]
/// and imm[4:0] = inst[11:7].
pub proof fn lemma_immediate_bits(inst: u32)
    ensures
        decode_spec(inst) matches Ok(d) ==> (d.opcode == Opcode::Jal ==> d.imm is Some && (d.imm->0
            >> 11u32) & 1 == (inst >> 20u32) & 1 && (d.imm->0 >> 1u32) & 0x3FF == (inst >> 21u32)
            & 0x3FF && (d.imm->0 >> 12u32) & 0xFF == (inst >> 12u32) & 0xFF && d.imm->0 >> 20u32
            == inst >> 31u32 && d.imm->0 & 1 == 0),
        decode_spec(inst) matches Ok(d) ==> (d.opcode == Opcode::Branch ==> d.imm is Some && (
        d.imm->0 >> 11u32) & 1 == (inst >> 7u32) & 1 && (d.imm->0 >> 1u32) & 0xF == (inst >> 8u32)
            & 0xF && (d.imm->0 >> 5u32) & 0x3F == (inst >> 25u32) & 0x3F && d.imm->0 >> 12u32 == inst
            >> 31u32 && d.imm->0 & 1 == 0),
        decode_spec(inst) matches Ok(d) ==> (d.opcode == Opcode::Store || d.opcode
            == Opcode::StoreFp ==> d.imm is Some && d.imm->0 & 0x1F == (inst >> 7u32) & 0x1F
            && d.imm->0 >> 5u32 == inst >> 25u32),
{
    lemma_fields_bounded(inst);
}

/// A successful decoding names only registers 0 through 31.
pub proof fn lemma_decode_wf(inst: u32)
    ensures
        decode_spec(inst) matches Ok(d) ==> d.wf() && d.raw == inst,
{
    lemma_fields_bounded(inst);
}

/// The JAL word that jumps by `offset` and links into `rd`: the offset's
/// low 21 bits laid out as imm[20|10:1|11|19:12] in bits 31:12.
pub open spec fn jal_encoding(offset: int, rd: u8) -> u32 {
    let u = (offset % 0x20_0000) as u32;
    (((u >> 20u32) & 1) << 31u32) | (((u >> 1u32) & 0x3FF) << 21u32) | (((u >> 11u32) & 1) << 20u32)
        | (u & 0xF_F000) | ((rd as u32) << 7u32) | 0x6F
}

/// The conditional-branch word with this `funct3` that compares `rs1` with
/// `rs2` and jumps by `offset`: the offset's low 13 bits laid out as
/// imm[12|10:5] in bits 31:25 and imm[4:1|11] in bits 11:7.
pub open spec fn branch_encoding(offset: int, rs1: u8, rs2: u8, f3: u32) -> u32 {
    let u = (offset % 0x2000) as u32;
    (((u >> 12u32) & 1) << 31u32) | (((u >> 5u32) & 0x3F) << 25u32) | ((rs2 as u32) << 20u32) | ((
    rs1 as u32) << 15u32) | (f3 << 12u32) | (((u >> 1u32) & 0xF) << 8u32) | (((u >> 11u32) & 1)
        << 7u32) | 0x63
}

/// The I-type word of this opcode and `funct3` on `rs1` into `rd` whose
/// immediate is `imm`: its low 12 bits in bits 31:20.
pub open spec fn i_type_encoding(op: Opcode, imm: int, rs1: u8, f3: u32, rd: u8) -> u32 {
    let u = (imm % 0x1000) as u32;
    (u << 20u32) | ((rs1 as u32) << 15u32) | (f3 << 12u32) | ((rd as u32) << 7u32) | opcode_bits(op)
}

/// The R-type word of this opcode, `funct7` and `funct3` on `rs1` and
/// `rs2` into `rd`.
pub open spec fn r_type_encoding(op: Opcode, f7: u8, rs2: u8, rs1: u8, f3: u32, rd: u8) -> u32 {
    ((f7 as u32) << 25u32) | ((rs2 as u32) << 20u32) | ((rs1 as u32) << 15u32) | (f3 << 12u32) | ((
    rd as u32) << 7u32) | opcode_bits(op)
}

/// The U-type word of this opcode into `rd` whose upper immediate is
/// `upper` (20 bits), placed in bits 31:12.
pub open spec fn u_type_encoding(op: Opcode, upper: u32, rd: u8) -> u32 {
    (upper << 12u32) | ((rd as u32) << 7u32) | opcode_bits(op)
}

/// The store word of this opcode and `funct3` that stores `rs2` at `rs1` +
/// `offset`: the offset's low 12 bits split as imm[11:5] in bits 31:25 and
/// imm[4:0] in bits 11:7.
pub open spec fn store_encoding(op: Opcode, offset: int, rs1: u8, rs2: u8, f3: u32) -> u32 {
    let u = (offset % 0x1000) as u32;
    ((u >> 5u32) << 25u32) | ((rs2 as u32) << 20u32) | ((rs1 as u32) << 15u32) | (f3 << 12u32) | ((u
        & 0x1F) << 7u32) | opcode_bits(op)
}

proof fn lemma_imm_layouts(u: u32, r1: u32, r2: u32, f3: u32, rd: u32, op: u32, w: u32)
    by (bit_vector)
    requires
        r1 < 32,
        r2 < 32,
        f3 < 8,
        rd < 32,
    ensures
        u < 0x20_0000 && u % 2 == 0 && w == (((u >> 20u32) & 1) << 31u32) | (((u >> 1u32) & 0x3FF)
            << 21u32) | (((u >> 11u32) & 1) << 20u32) | (u & 0xF_F000) | (r1 << 7u32) | 0x6F ==> w
            & 3 == 3 && w & 0x7F == 0x6F && (w >> 7u32) & 0x1F == r1 && (((w >> 31u32) & 1)
            << 20u32) | (w & 0xF_F000) | (((w >> 20u32) & 1) << 11u32) | (((w >> 21u32) & 0x3FF)
            << 1u32) == u,
        u < 0x2000 && u % 2 == 0 && w == (((u >> 12u32) & 1) << 31u32) | (((u >> 5u32) & 0x3F)
            << 25u32) | (r2 << 20u32) | (r1 << 15u32) | (f3 << 12u32) | (((u >> 1u32) & 0xF)
            << 8u32) | (((u >> 11u32) & 1) << 7u32) | 0x63 ==> w & 3 == 3 && w & 0x7F == 0x63 && (w
            >> 12u32) & 7 == f3 && (w >> 15u32) & 0x1F == r1 && (w >> 20u32) & 0x1F == r2 && (((w
            >> 31u32) & 1) << 12u32) | (((w >> 7u32) & 1) << 11u32) | (((w >> 25u32) & 0x3F)
            << 5u32) | (((w >> 8u32) & 0xF) << 1u32) == u,
        u < 0x1000 && (op == 0x03 || op == 0x07 || op == 0x13 || op == 0x1B || op == 0x67 || op
            == 0x73) && w == (u << 20u32) | (r1 << 15u32) | (f3 << 12u32) | (r2 << 7u32) | op ==> w
            & 3 == 3 && w & 0x7F == op && (w >> 12u32) & 7 == f3 && (w >> 15u32) & 0x1F == r1 && (w
            >> 7u32) & 0x1F == r2 && w >> 20u32 == u,
        u < 0x1000 && (op == 0x23 || op == 0x27) && w == ((u >> 5u32) << 25u32) | (r2 << 20u32) | (
        r1 << 15u32) | (f3 << 12u32) | ((u & 0x1F) << 7u32) | op ==> w & 3 == 3 && w & 0x7F == op
            && (w >> 12u32) & 7 == f3 && (w >> 15u32) & 0x1F == r1 && (w >> 20u32) & 0x1F == r2 && ((w
            >> 25u32) << 5u32) | ((w >> 7u32) & 0x1F) == u,
        u < 0x80 && (op == 0x2F || op == 0x33 || op == 0x3B || op == 0x53) && w == (u << 25u32) | (r2
            << 20u32) | (r1 << 15u32) | (f3 << 12u32) | (rd << 7u32) | op ==> w & 3 == 3 && w & 0x7F
            == op && (w >> 7u32) & 0x1F == rd && (w >> 12u32) & 7 == f3 && (w >> 15u32) & 0x1F == r1
            && (w >> 20u32) & 0x1F == r2 && w >> 25u32 == u,
        u < 0x10_0000 && (op == 0x17 || op == 0x37) && w == (u << 12u32) | (r1 << 7u32) | op ==> w
            & 3 == 3 && w & 0x7F == op && (w >> 7u32) & 0x1F == r1 && w & 0xFFFF_F000 == u << 12u32 && u
            << 12u32 == u * 0x1000 && (u << 12u32) & 0xFFFF_F000 == u << 12u32,
{
}

/// Decoding the J-type encoding of any even offset in [-2^20, 2^20) gives a
/// JAL into the same register whose immediate, sign-extended, is that
/// offset: every bit of the offset, bit 11 included, comes back in place.
pub proof fn lemma_jal_offset_round_trip(offset: int, rd: u8)
    requires
        -0x10_0000 <= offset < 0x10_0000,
        offset % 2 == 0,
        rd < 32,
    ensures
        decode_spec(jal_encoding(offset, rd)) is Ok,
        decode_spec(jal_encoding(offset, rd))->Ok_0.opcode == Opcode::Jal,
        decode_spec(jal_encoding(offset, rd))->Ok_0.rd == Some(rd),
        decode_spec(jal_encoding(offset, rd))->Ok_0.imm is Some,
        signed64(sext21(decode_spec(jal_encoding(offset, rd))->Ok_0.imm->0)) == offset,
{
    let u = (offset % 0x20_0000) as u32;
    if offset >= 0 {
        assert(u == offset);
    } else {
        assert(u == offset + 0x20_0000);
    }
    let w = jal_encoding(offset, rd);
    lemma_imm_layouts(u, rd as u32, 0, 0, 0, 0, w);
    assert(opcode_of(w & 0x7F) == Some(Opcode::Jal));
    assert(j_imm(w) == u);
}

/// Decoding the B-type encoding of any even offset in [-2^12, 2^12) gives
/// a branch with the same registers and `funct3` whose immediate,
/// sign-extended, is that offset.
pub proof fn lemma_branch_offset_round_trip(offset: int, rs1: u8, rs2: u8, f3: u32)
    requires
        -0x1000 <= offset < 0x1000,
        offset % 2 == 0,
        rs1 < 32,
        rs2 < 32,
        f3 < 8,
    ensures
        decode_spec(branch_encoding(offset, rs1, rs2, f3)) is Ok,
        decode_spec(branch_encoding(offset, rs1, rs2, f3))->Ok_0.opcode == Opcode::Branch,
        decode_spec(branch_encoding(offset, rs1, rs2, f3))->Ok_0.rs1 == Some(rs1),
        decode_spec(branch_encoding(offset, rs1, rs2, f3))->Ok_0.rs2 == Some(rs2),
        decode_spec(branch_encoding(offset, rs1, rs2, f3))->Ok_0.funct3 == Some(funct3_of(f3)),
        decode_spec(branch_encoding(offset, rs1, rs2, f3))->Ok_0.imm is Some,
        signed64(sext13(decode_spec(branch_encoding(offset, rs1, rs2, f3))->Ok_0.imm->0)) == offset,
{
    let u = (offset % 0x2000) as u32;
    if offset >= 0 {
        assert(u == offset);
    } else {
        assert(u == offset + 0x2000);
    }
    let w = branch_encoding(offset, rs1, rs2, f3);
    lemma_imm_layouts(u, rs1 as u32, rs2 as u32, f3, 0, 0, w);
    assert(opcode_of(w & 0x7F) == Some(Opcode::Branch));
    assert(b_imm(w) == u);
    assert(funct3_field(w) == f3);
}

/// Decoding the I-type encoding (a load, OP-IMM, OP-IMM-32, JALR or SYSTEM
/// opcode) of any immediate in [-2^11, 2^11) gives an instruction of that
/// opcode with the same registers and `funct3` whose immediate,
/// sign-extended, is that value.
pub proof fn lemma_i_type_round_trip(op: Opcode, imm: int, rs1: u8, f3: u32, rd: u8)
    requires
        op == Opcode::Load || op == Opcode::LoadFp || op == Opcode::OpImm || op == Opcode::OpImm32
            || op == Opcode::Jalr || op == Opcode::System,
        -0x800 <= imm < 0x800,
        rs1 < 32,
        f3 < 8,
        rd < 32,
    ensures
        decode_spec(i_type_encoding(op, imm, rs1, f3, rd)) is Ok,
        decode_spec(i_type_encoding(op, imm, rs1, f3, rd))->Ok_0.opcode == op,
        decode_spec(i_type_encoding(op, imm, rs1, f3, rd))->Ok_0.rs1 == Some(rs1),
        decode_spec(i_type_encoding(op, imm, rs1, f3, rd))->Ok_0.rd == Some(rd),
        decode_spec(i_type_encoding(op, imm, rs1, f3, rd))->Ok_0.funct3 == Some(funct3_of(f3)),
        decode_spec(i_type_encoding(op, imm, rs1, f3, rd))->Ok_0.imm is Some,
        signed64(sext12(decode_spec(i_type_encoding(op, imm, rs1, f3, rd))->Ok_0.imm->0)) == imm,
{
    let u = (imm % 0x1000) as u32;
    if imm >= 0 {
        assert(u == imm);
    } else {
        assert(u == imm + 0x1000);
    }
    let w = i_type_encoding(op, imm, rs1, f3, rd);
    lemma_imm_layouts(u, rs1 as u32, rd as u32, f3, 0, opcode_bits(op), w);
    assert(opcode_of(w & 0x7F) == Some(op));
    assert(i_imm(w) == u);
    assert(funct3_field(w) == f3);
}

/// Decoding the store encoding (integer or floating-point) of any offset in
/// [-2^11, 2^11) gives a store of that opcode with the same registers and
/// `funct3` whose immediate, sign-extended, is that offset.
pub proof fn lemma_store_offset_round_trip(op: Opcode, offset: int, rs1: u8, rs2: u8, f3: u32)
    requires
        op == Opcode::Store || op == Opcode::StoreFp,
        -0x800 <= offset < 0x800,
        rs1 < 32,
        rs2 < 32,
        f3 < 8,
    ensures
        decode_spec(store_encoding(op, offset, rs1, rs2, f3)) is Ok,
        decode_spec(store_encoding(op, offset, rs1, rs2, f3))->Ok_0.opcode == op,
        decode_spec(store_encoding(op, offset, rs1, rs2, f3))->Ok_0.rs1 == Some(rs1),
        decode_spec(store_encoding(op, offset, rs1, rs2, f3))->Ok_0.rs2 == Some(rs2),
        decode_spec(store_encoding(op, offset, rs1, rs2, f3))->Ok_0.funct3 == Some(funct3_of(f3)),
        decode_spec(store_encoding(op, offset, rs1, rs2, f3))->Ok_0.imm is Some,
        signed64(sext12(decode_spec(store_encoding(op, offset, rs1, rs2, f3))->Ok_0.imm->0))
            == offset,
{
    let u = (offset % 0x1000) as u32;
    if offset >= 0 {
        assert(u == offset);
    } else {
        assert(u == offset + 0x1000);
    }
    let w = store_encoding(op, offset, rs1, rs2, f3);
    lemma_imm_layouts(u, rs1 as u32, rs2 as u32, f3, 0, opcode_bits(op), w);
    assert(opcode_of(w & 0x7F) == Some(op));
    assert(s_imm(w) == u);
    assert(funct3_field(w) == f3);
}

/// Decoding the R-type encoding (OP, OP-32, AMO or OP-FP) of any `funct7`,
/// registers and `funct3` gives an instruction of that opcode with exactly
/// those fields.
pub proof fn lemma_r_type_round_trip(op: Opcode, f7: u8, rs2: u8, rs1: u8, f3: u32, rd: u8)
    requires
        op == Opcode::Op || op == Opcode::Op32 || op == Opcode::Amo || op == Opcode::OpFp,
        f7 < 128,
        rs2 < 32,
        rs1 < 32,
        f3 < 8,
        rd < 32,
    ensures
        decode_spec(r_type_encoding(op, f7, rs2, rs1, f3, rd)) is Ok,
        decode_spec(r_type_encoding(op, f7, rs2, rs1, f3, rd))->Ok_0.opcode == op,
        decode_spec(r_type_encoding(op, f7, rs2, rs1, f3, rd))->Ok_0.funct7 == Some(f7),
        decode_spec(r_type_encoding(op, f7, rs2, rs1, f3, rd))->Ok_0.rs2 == Some(rs2),
        decode_spec(r_type_encoding(op, f7, rs2, rs1, f3, rd))->Ok_0.rs1 == Some(rs1),
        decode_spec(r_type_encoding(op, f7, rs2, rs1, f3, rd))->Ok_0.funct3 == Some(funct3_of(f3)),
        decode_spec(r_type_encoding(op, f7, rs2, rs1, f3, rd))->Ok_0.rd == Some(rd),
{
    let w = r_type_encoding(op, f7, rs2, rs1, f3, rd);
    lemma_imm_layouts(f7 as u32, rs1 as u32, rs2 as u32, f3, rd as u32, opcode_bits(op), w);
    assert(opcode_of(w & 0x7F) == Some(op));
    assert(funct3_field(w) == f3);
}

/// Decoding the U-type encoding (LUI or AUIPC) of any 20-bit upper
/// immediate gives an instruction of that opcode into the same register
/// whose immediate is the upper immediate in bits 31:12.
pub proof fn lemma_u_type_round_trip(op: Opcode, upper: u32, rd: u8)
    requires
        op == Opcode::Lui || op == Opcode::Auipc,
        upper < 0x10_0000,
        rd < 32,
    ensures
        decode_spec(u_type_encoding(op, upper, rd)) is Ok,
        decode_spec(u_type_encoding(op, upper, rd))->Ok_0.opcode == op,
        decode_spec(u_type_encoding(op, upper, rd))->Ok_0.rd == Some(rd),
        decode_spec(u_type_encoding(op, upper, rd))->Ok_0.imm == Some((upper * 0x1000) as u32),
        (upper * 0x1000) as u32 & 0xFFFF_F000 == (upper * 0x1000) as u32,
{
    let w = u_type_encoding(op, upper, rd);
    lemma_imm_layouts(upper, rd as u32, 0, 0, 0, opcode_bits(op), w);
    assert(opcode_of(w & 0x7F) == Some(op));
}

/// The 32-bit instruction decoder.
#[derive(Debug, Clone, Copy)]
pub struct InstructionDecoder;

impl InstructionDecoder {
    /// Creates a decoder.
    pub fn new() -> (r: Self) {
        InstructionDecoder
    }

    /// Decodes one 32-bit instruction word.
    ///
    /// Words whose low two bits are not `11` (compressed encodings) and
    /// unknown major opcodes are `InvalidInstruction`; MISC-MEM encodings
    /// other than `FENCE` are `UnimplementedInstruction`.
    pub fn decode(&self, inst: u32) -> (r: Result<DecodedInstruction, DecodeError>)
        ensures
            r == decode_spec(inst),
            r matches Ok(d) ==> d.wf(),
    {
        proof {
            lemma_fields_bounded(inst);
        }
        if inst & 3 != 3 {
            return Err(DecodeError::InvalidInstruction(inst));
        }
        let op = match Opcode::from_bits(inst & 0x7F) {
            Some(op) => op,
            None => return Err(DecodeError::InvalidInstruction(inst)),
        };
        let f3 = (inst >> 12) & 0x7;
        let rd = ((inst >> 7) & 0x1F) as u8;
        let rs1 = ((inst >> 15) & 0x1F) as u8;
        let rs2 = ((inst >> 20) & 0x1F) as u8;
        let funct7 = (inst >> 25) as u8;
        let base = DecodedInstruction {
            raw: inst,
            format: InstructionFormat::RType,
            opcode: op,
            funct3: None,
            funct7: None,
            rs1: None,
            rs2: None,
            rs3: None,
            rd: None,
            imm: None,
            branch_taken: false,
        };
        match op {
            Opcode::Op | Opcode::Op32 | Opcode::Amo | Opcode::OpFp => Ok(
                DecodedInstruction {
                    format: InstructionFormat::RType,
                    funct3: Some(Funct3::from_bits(f3)),
                    funct7: Some(funct7),
                    rs1: Some(rs1),
                    rs2: Some(rs2),
                    rd: Some(rd),
                    ..base
                },
            ),
            Opcode::Madd | Opcode::Msub | Opcode::Nmsub | Opcode::Nmadd => Ok(
                DecodedInstruction {
                    format: InstructionFormat::R4Type,
                    funct3: Some(Funct3::from_bits(f3)),
                    funct7: Some(funct7 & 3),
                    rs1: Some(rs1),
                    rs2: Some(rs2),
                    rs3: Some((inst >> 27) as u8),
                    rd: Some(rd),
                    ..base
                },
            ),
            Opcode::MiscMem => {
                if f3 == 0 {
                    Ok(
                        DecodedInstruction {
                            format: InstructionFormat::IType,
                            funct3: Some(Funct3::from_bits(f3)),
                            rs1: Some(rs1),
                            rd: Some(rd),
                            imm: Some(inst >> 20),
                            ..base
                        },
                    )
                } else {
                    Err(DecodeError::UnimplementedInstruction)
                }
            },
            Opcode::Load | Opcode::LoadFp | Opcode::OpImm | Opcode::OpImm32 | Opcode::Jalr
            | Opcode::System => {
                let is_imm_shift = (op == Opcode::OpImm || op == Opcode::OpImm32) && (f3 == 1 || f3
                    == 5);
                Ok(
                    DecodedInstruction {
                        format: InstructionFormat::IType,
                        funct3: Some(Funct3::from_bits(f3)),
                        funct7: if is_imm_shift {
                            Some(funct7)
                        } else {
                            None
                        },
                        rs1: Some(rs1),
                        rd: Some(rd),
                        imm: Some(inst >> 20),
                        ..base
                    },
                )
            },
            Opcode::Store | Opcode::StoreFp => Ok(
                DecodedInstruction {
                    format: InstructionFormat::SType,
                    funct3: Some(Funct3::from_bits(f3)),
                    rs1: Some(rs1),
                    rs2: Some(rs2),
                    imm: Some(((inst >> 25) << 5) | ((inst >> 7) & 0x1F)),
                    ..base
                },
            ),
            Opcode::Branch => Ok(
                DecodedInstruction {
                    format: InstructionFormat::BType,
                    funct3: Some(Funct3::from_bits(f3)),
                    rs1: Some(rs1),
                    rs2: Some(rs2),
                    imm: Some(
                        (((inst >> 31) & 1) << 12) | (((inst >> 7) & 1) << 11) | (((inst >> 25)
                            & 0x3F) << 5) | (((inst >> 8) & 0xF) << 1),
                    ),
                    ..base
                },
            ),
            Opcode::Lui | Opcode::Auipc => Ok(
                DecodedInstruction {
                    format: InstructionFormat::UType,
                    rd: Some(rd),
                    imm: Some(inst & 0xFFFF_F000),
                    ..base
                },
            ),
            Opcode::Jal => Ok(
                DecodedInstruction {
                    format: InstructionFormat::JType,
                    rd: Some(rd),
                    imm: Some(
                        (((inst >> 31) & 1) << 20) | (inst & 0xF_F000) | (((inst >> 20) & 1) << 11)
                            | (((inst >> 21) & 0x3FF) << 1),
                    ),
                    ..base
                },
            ),
        }
    }
}

} // verus!
