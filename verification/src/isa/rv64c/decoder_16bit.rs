//! The 16-bit compressed-instruction decoder.
//!
//! Each compressed encoding is expanded to the equivalent 32-bit
//! instruction word, which the 32-bit decoder then decodes.  Reserved
//! encodings (zero immediates where the ISA forbids them, `rd = x0` where
//! it is reserved, funct3 `100` of quadrant 0) are rejected.
use vstd::prelude::*;
use crate::decode::lemma_decode_wf;
use crate::arith::{lemma_sign_extensions, sext12, sext13, sext21, signed64};
use crate::cpu::CoreState;
use crate::execute::ExecuteError;
use crate::isa::rv64i::alu::op_post;
use crate::memory::SimpleMemory;
use crate::decode::{
    DecodeError, DecodedInstruction, Funct3, InstructionDecoder, Opcode, decode_spec, funct3_bits,
    opcode_bits, opcode_of,
};

verus! {

/// Compressed quadrants (the low two bits).
#[derive(Debug, Clone, Copy, PartialEq, Eq, Structural)]
pub enum CQuadrant {
    C0,
    C1,
    C2,
}

/// Compressed operations.
#[derive(Debug, Clone, Copy, PartialEq, Eq, Structural)]
pub enum COpcode {
    CLw,
    CLd,
    CSw,
    CSd,
    CFld,
    CFlw,
    CFsd,
    CFsw,
    CAddi4Spn,
    CAddi,
    CAddiw,
    CLi,
    CLui,
    CSrli,
    CSrai,
    CAndi,
    CSub,
    CXor,
    COr,
    CAnd,
    CSubw,
    CAddw,
    CJ,
    CJr,
    CJalr,
    CBeqz,
    CBnez,
    CAddi16Sp,
    CSlli,
    CLwsp,
    CLdsp,
    CSwsp,
    CSdsp,
    CMv,
    CAdd,
    CEBreak,
    CNop,
}

/// An I-type instruction word.
pub open spec fn i_word(op: Opcode, rd: u8, rs1: u8, f3: Funct3, imm: u32) -> u32 {
    ((imm & 0xFFF) << 20u32) | ((rs1 as u32) << 15u32) | (funct3_bits(f3) << 12u32) | ((rd as u32)
        << 7u32) | opcode_bits(op)
}

/// An R-type instruction word.
pub open spec fn r_word(op: Opcode, rd: u8, rs1: u8, rs2: u8, f3: Funct3, f7: u8) -> u32 {
    ((f7 as u32) << 25u32) | ((rs2 as u32) << 20u32) | ((rs1 as u32) << 15u32) | (funct3_bits(f3)
        << 12u32) | ((rd as u32) << 7u32) | opcode_bits(op)
}

/// An S-type instruction word.
pub open spec fn s_word(op: Opcode, rs1: u8, rs2: u8, f3: Funct3, imm: u32) -> u32 {
    (((imm >> 5u32) & 0x7F) << 25u32) | ((rs2 as u32) << 20u32) | ((rs1 as u32) << 15u32) | (
    funct3_bits(f3) << 12u32) | ((imm & 0x1F) << 7u32) | opcode_bits(op)
}

/// A B-type instruction word.
pub open spec fn b_word(op: Opcode, rs1: u8, rs2: u8, f3: Funct3, imm: u32) -> u32 {
    (((imm >> 12u32) & 1) << 31u32) | (((imm >> 5u32) & 0x3F) << 25u32) | ((rs2 as u32) << 20u32)
        | ((rs1 as u32) << 15u32) | (funct3_bits(f3) << 12u32) | (((imm >> 1u32) & 0xF) << 8u32)
        | (((imm >> 11u32) & 1) << 7u32) | opcode_bits(op)
}

/// A U-type instruction word.
pub open spec fn u_word(op: Opcode, rd: u8, imm: u32) -> u32 {
    (imm & 0xFFFF_F000) | ((rd as u32) << 7u32) | opcode_bits(op)
}

/// A J-type instruction word.
pub open spec fn j_word(op: Opcode, rd: u8, imm: u32) -> u32 {
    (((imm >> 20u32) & 1) << 31u32) | (((imm >> 12u32) & 0xFF) << 12u32) | (((imm >> 11u32) & 1)
        << 20u32) | (((imm >> 1u32) & 0x3FF) << 21u32) | ((rd as u32) << 7u32) | opcode_bits(op)
}

/// The 6-bit signed immediate (inst[12], inst[6:2]) sign-extended to 32 bits.
pub open spec fn c_imm(inst: u16) -> u32 {
    let imm5 = ((inst >> 12u16) & 1) as u32;
    let imm = (imm5 << 5u32) | ((inst >> 2u16) & 0x1F) as u32;
    if imm5 != 0 {
        imm | 0xFFFF_FFC0
    } else {
        imm
    }
}

/// The 6-bit shift amount; the arithmetic form also sets immediate bit 10.
pub open spec fn c_shamt(inst: u16, arith: bool) -> u32 {
    let s = ((((inst >> 12u16) & 1) as u32) << 5u32) | ((inst >> 2u16) & 0x1F) as u32;
    if arith {
        s | 0x400
    } else {
        s
    }
}

/// The C.LUI immediate (bits 17:12) sign-extended to 32 bits.
pub open spec fn c_lui_imm(inst: u16) -> u32 {
    let b17 = ((inst >> 12u16) & 1) as u32;
    let imm = (b17 << 17u32) | ((((inst >> 2u16) & 0x1F) as u32) << 12u32);
    if b17 != 0 {
        imm | 0xFFFC_0000
    } else {
        imm
    }
}

/// The instruction bits `inst[lo..]` selected by `mask`, placed at bit
/// `at` of an immediate.
pub open spec fn cfield(inst: u16, lo: u16, mask: u16, at: u32) -> u32 {
    (((inst >> lo) & mask) as u32) << at
}

/// The C.J offset, sign-extended from bit 11:
/// inst[12|11|10:9|8|7|6|5:3|2] = offset[11|4|9:8|10|6|7|3:1|5].
pub open spec fn c_j_imm(inst: u16) -> u32 {
    let v = cfield(inst, 12, 1, 11) | cfield(inst, 11, 1, 4) | cfield(inst, 9, 3, 8) | cfield(inst, 8, 1, 10)
        | cfield(inst, 7, 1, 6) | cfield(inst, 6, 1, 7) | cfield(inst, 3, 7, 1) | cfield(inst, 2, 1, 5);
    if (inst >> 12u16) & 1 != 0 {
        v | 0xFFFF_F000
    } else {
        v
    }
}

/// The C.BEQZ/C.BNEZ offset, sign-extended from bit 8:
/// inst[12|11:10|6:5|4:3|2] = offset[8|4:3|7:6|2:1|5].
pub open spec fn c_b_imm(inst: u16) -> u32 {
    let v = cfield(inst, 12, 1, 8) | cfield(inst, 10, 3, 3) | cfield(inst, 5, 3, 6) | cfield(inst, 3, 3, 1)
        | cfield(inst, 2, 1, 5);
    if (inst >> 12u16) & 1 != 0 {
        v | 0xFFFF_FE00
    } else {
        v
    }
}

/// The C.ADDI16SP immediate, sign-extended from bit 9:
/// inst[12|6|5|4:3|2] = nzimm[9|4|6|8:7|5].
pub open spec fn c_addi16sp_imm(inst: u16) -> u32 {
    let v = cfield(inst, 12, 1, 9) | cfield(inst, 6, 1, 4) | cfield(inst, 5, 1, 6) | cfield(inst, 3, 3, 7)
        | cfield(inst, 2, 1, 5);
    if (inst >> 12u16) & 1 != 0 {
        v | 0xFFFF_FC00
    } else {
        v
    }
}

/// The C.ADDI4SPN immediate: inst[12:11|10:7|6|5] = nzuimm[5:4|9:6|2|3].
pub open spec fn c_addi4spn_imm(inst: u16) -> u32 {
    cfield(inst, 11, 3, 4) | cfield(inst, 7, 0xF, 6) | cfield(inst, 6, 1, 2) | cfield(inst, 5, 1, 3)
}

/// The C.LWSP offset: inst[12|6:4|3:2] = uimm[5|4:2|7:6].
pub open spec fn c_lwsp_off(inst: u16) -> u32 {
    cfield(inst, 12, 1, 5) | cfield(inst, 4, 7, 2) | cfield(inst, 2, 3, 6)
}

/// The C.LDSP offset: inst[12|6:5|4:2] = uimm[5|4:3|8:6].
pub open spec fn c_ldsp_off(inst: u16) -> u32 {
    cfield(inst, 12, 1, 5) | cfield(inst, 5, 3, 3) | cfield(inst, 2, 7, 6)
}

/// The C.SWSP offset: inst[12:9|8:7] = uimm[5:2|7:6].
pub open spec fn c_swsp_off(inst: u16) -> u32 {
    cfield(inst, 9, 0xF, 2) | cfield(inst, 7, 3, 6)
}

/// The C.SDSP offset: inst[12:10|9:7] = uimm[5:3|8:6].
pub open spec fn c_sdsp_off(inst: u16) -> u32 {
    cfield(inst, 10, 7, 3) | cfield(inst, 7, 7, 6)
}

/// The 5-bit register field inst[11:7].
pub open spec fn c_rd(inst: u16) -> u8 {
    ((inst >> 7u16) & 0x1F) as u8
}

/// The 5-bit register field inst[6:2].
pub open spec fn c_rs2(inst: u16) -> u8 {
    ((inst >> 2u16) & 0x1F) as u8
}

/// The 3-bit register field inst[9:7] as a full register number (x8..x15).
pub open spec fn c_rs1p(inst: u16) -> u8 {
    (((inst >> 7u16) & 0x7) as u8 + 8) as u8
}

/// The 3-bit register field inst[4:2] as a full register number (x8..x15).
pub open spec fn c_rdp(inst: u16) -> u8 {
    (((inst >> 2u16) & 0x7) as u8 + 8) as u8
}

/// The offset of C.LW/C.SW/C.FLW/C.FSW: inst[12:10|6|5] = uimm[5:3|2|6].
pub open spec fn c_w_off(inst: u16) -> u32 {
    cfield(inst, 10, 7, 3) | cfield(inst, 6, 1, 2) | cfield(inst, 5, 1, 6)
}

/// The offset of C.LD/C.SD/C.FLD/C.FSD: inst[12:10|6:5] = uimm[5:3|7:6].
pub open spec fn c_d_off(inst: u16) -> u32 {
    cfield(inst, 10, 7, 3) | cfield(inst, 5, 3, 6)
}

/// The 32-bit expansion of a compressed instruction, or why it has none.
pub open spec fn expand_spec(inst: u16) -> Result<u32, DecodeError> {
    let q = inst & 3;
    let f3 = (inst >> 13u16) & 7;
    if q == 0 {
        if f3 == 0 {
            if (inst >> 5u16) & 0xFF == 0 {
                Err(DecodeError::ReservedInstruction)
            } else {
                Ok(i_word(Opcode::OpImm, c_rdp(inst), 2, Funct3::AddSub, c_addi4spn_imm(inst)))
            }
        } else if f3 == 1 {
            Ok(i_word(Opcode::LoadFp, c_rdp(inst), c_rs1p(inst), Funct3::Sltu, c_d_off(inst)))
        } else if f3 == 2 {
            Ok(i_word(Opcode::Load, c_rdp(inst), c_rs1p(inst), Funct3::Slt, c_w_off(inst)))
        } else if f3 == 3 {
            Ok(i_word(Opcode::LoadFp, c_rdp(inst), c_rs1p(inst), Funct3::Slt, c_w_off(inst)))
        } else if f3 == 4 {
            Err(DecodeError::ReservedInstruction)
        } else if f3 == 5 {
            Ok(s_word(Opcode::StoreFp, c_rs1p(inst), c_rdp(inst), Funct3::Sltu, c_d_off(inst)))
        } else if f3 == 6 {
            Ok(s_word(Opcode::Store, c_rs1p(inst), c_rdp(inst), Funct3::Slt, c_w_off(inst)))
        } else {
            Ok(s_word(Opcode::StoreFp, c_rs1p(inst), c_rdp(inst), Funct3::Slt, c_w_off(inst)))
        }
    } else if q == 1 {
        let rd = c_rd(inst);
        if f3 == 0 {
            if rd == 0 {
                Err(DecodeError::ReservedInstruction)
            } else {
                Ok(i_word(Opcode::OpImm, rd, rd, Funct3::AddSub, c_imm(inst)))
            }
        } else if f3 == 1 {
            if rd == 0 {
                Err(DecodeError::ReservedInstruction)
            } else {
                Ok(i_word(Opcode::OpImm32, rd, rd, Funct3::AddSub, c_imm(inst)))
            }
        } else if f3 == 2 {
            if rd == 0 {
                Err(DecodeError::ReservedInstruction)
            } else {
                Ok(i_word(Opcode::OpImm, rd, 0, Funct3::AddSub, c_imm(inst)))
            }
        } else if f3 == 3 {
            if rd == 0 {
                Err(DecodeError::ReservedInstruction)
            } else if rd == 2 {
                if c_addi16sp_imm(inst) == 0 {
                    Err(DecodeError::ReservedInstruction)
                } else {
                    Ok(i_word(Opcode::OpImm, 2, 2, Funct3::AddSub, c_addi16sp_imm(inst)))
                }
            } else if c_lui_imm(inst) == 0 {
                Err(DecodeError::ReservedInstruction)
            } else {
                Ok(u_word(Opcode::Lui, rd, c_lui_imm(inst)))
            }
        } else if f3 == 4 {
            let op_type = (inst >> 10u16) & 3;
            let rdp = c_rs1p(inst);
            let rs2p = c_rdp(inst);
            if op_type == 0 {
                Ok(i_word(Opcode::OpImm, rdp, rdp, Funct3::SrlSra, c_shamt(inst, false)))
            } else if op_type == 1 {
                Ok(i_word(Opcode::OpImm, rdp, rdp, Funct3::SrlSra, c_shamt(inst, true)))
            } else if op_type == 2 {
                Ok(i_word(Opcode::OpImm, rdp, rdp, Funct3::And, c_imm(inst)))
            } else {
                let funct2 = (inst >> 5u16) & 3;
                let funct1 = (inst >> 12u16) & 1;
                if funct1 == 0 && funct2 == 0 {
                    Ok(r_word(Opcode::Op, rdp, rdp, rs2p, Funct3::AddSub, 0x20))
                } else if funct1 == 0 && funct2 == 1 {
                    Ok(r_word(Opcode::Op, rdp, rdp, rs2p, Funct3::Xor, 0))
                } else if funct1 == 0 && funct2 == 2 {
                    Ok(r_word(Opcode::Op, rdp, rdp, rs2p, Funct3::Or, 0))
                } else if funct1 == 0 && funct2 == 3 {
                    Ok(r_word(Opcode::Op, rdp, rdp, rs2p, Funct3::And, 0))
                } else if funct1 == 1 && funct2 == 0 {
                    Ok(r_word(Opcode::Op32, rdp, rdp, rs2p, Funct3::AddSub, 0x20))
                } else if funct1 == 1 && funct2 == 1 {
                    Ok(r_word(Opcode::Op32, rdp, rdp, rs2p, Funct3::AddSub, 0))
                } else {
                    Err(DecodeError::ReservedInstruction)
                }
            }
        } else if f3 == 5 {
            Ok(j_word(Opcode::Jal, 0, c_j_imm(inst)))
        } else if f3 == 6 {
            Ok(b_word(Opcode::Branch, c_rs1p(inst), 0, Funct3::AddSub, c_b_imm(inst)))
        } else {
            Ok(b_word(Opcode::Branch, c_rs1p(inst), 0, Funct3::Sll, c_b_imm(inst)))
        }
    } else if q == 2 {
        let rd = c_rd(inst);
        let rs2 = c_rs2(inst);
        if f3 == 0 {
            if rd == 0 {
                Err(DecodeError::ReservedInstruction)
            } else {
                Ok(i_word(Opcode::OpImm, rd, rd, Funct3::Sll, c_shamt(inst, false)))
            }
        } else if f3 == 2 {
            if rd == 0 {
                Err(DecodeError::ReservedInstruction)
            } else {
                Ok(i_word(Opcode::Load, rd, 2, Funct3::Slt, c_lwsp_off(inst)))
            }
        } else if f3 == 1 || f3 == 3 {
            if rd == 0 {
                Err(DecodeError::ReservedInstruction)
            } else {
                Ok(i_word(Opcode::Load, rd, 2, Funct3::Sltu, c_ldsp_off(inst)))
            }
        } else if f3 == 4 {
            if (inst >> 12u16) & 1 == 0 {
                if rs2 == 0 {
                    if rd == 0 {
                        Err(DecodeError::ReservedInstruction)
                    } else {
                        Ok(i_word(Opcode::Jalr, 0, rd, Funct3::AddSub, 0))
                    }
                } else {
                    Ok(r_word(Opcode::Op, rd, 0, rs2, Funct3::AddSub, 0))
                }
            } else {
                if rs2 == 0 && rd == 0 {
                    Ok(0x0010_0073u32)
                } else if rs2 == 0 {
                    Ok(i_word(Opcode::Jalr, 1, rd, Funct3::AddSub, 0))
                } else {
                    Ok(r_word(Opcode::Op, rd, rd, rs2, Funct3::AddSub, 0))
                }
            }
        } else if f3 == 6 {
            Ok(s_word(Opcode::Store, 2, rs2, Funct3::Slt, c_swsp_off(inst)))
        } else {
            Ok(s_word(Opcode::Store, 2, rs2, Funct3::Sltu, c_sdsp_off(inst)))
        }
    } else {
        Err(DecodeError::InvalidInstruction(inst as u32))
    }
}

/// The decoding of a compressed instruction: the decoding of its expansion.
pub open spec fn decode_16bit_spec(inst: u16) -> Result<DecodedInstruction, DecodeError> {
    match expand_spec(inst) {
        Ok(w) => decode_spec(w),
        Err(e) => Err(e),
    }
}

/// The register forms of the quadrant-1 arithmetic group with bit 12 set
/// and funct2 2 or 3 are reserved.
pub proof fn lemma_reserved_alu_encodings(inst: u16)
    requires
        inst & 3 == 1,
        (inst >> 13u16) & 7 == 4,
        (inst >> 10u16) & 3 == 3,
        (inst >> 12u16) & 1 == 1,
        (inst >> 5u16) & 3 == 2 || (inst >> 5u16) & 3 == 3,
    ensures
        decode_16bit_spec(inst) == Err::<DecodedInstruction, DecodeError>(DecodeError::ReservedInstruction),
{
}

proof fn lemma_word_layouts(
    a: u32,
    rs2: u32,
    rs1: u32,
    f3: u32,
    rd: u32,
    op: u32,
    w: u32,
    inst: u16,
    u: u16,
    c: u32,
)
    by (bit_vector)
    requires
        rs2 < 32,
        rs1 < 32,
        f3 < 8,
        rd < 32,
    ensures
        a < 128 && (op == 0x33 || op == 0x3B) && w == (a << 25u32) | (rs2 << 20u32) | (rs1 << 15u32)
            | (f3 << 12u32) | (rd << 7u32) | op ==> w & 3 == 3 && w & 0x7F == op && (w >> 7u32)
            & 0x1F == rd && (w >> 12u32) & 7 == f3 && (w >> 15u32) & 0x1F == rs1 && (w >> 20u32)
            & 0x1F == rs2 && w >> 25u32 == a,
        (op == 0x03 || op == 0x07 || op == 0x13 || op == 0x67) && w == ((a & 0xFFF) << 20u32)
            | (rs1 << 15u32)
            | (f3 << 12u32) | (rd << 7u32)
            | op ==> w & 3 == 3 && w & 0x7F == op && (w >> 7u32) & 0x1F == rd && (w >> 12u32) & 7
            == f3 && (w >> 15u32) & 0x1F == rs1 && w >> 20u32 == a & 0xFFF && w >> 25u32 == (a
            & 0xFFF) >> 5u32,
        (op == 0x23 || op == 0x27) && w == (((a >> 5u32) & 0x7F) << 25u32) | (rs2 << 20u32) | (rs1
            << 15u32) | (f3 << 12u32) | ((a & 0x1F) << 7u32) | op ==> w & 3 == 3 && w & 0x7F == op
            && (w >> 12u32) & 7 == f3 && (w >> 15u32) & 0x1F == rs1 && (w >> 20u32) & 0x1F == rs2
            && ((w
            >> 25u32) << 5u32) | ((w >> 7u32) & 0x1F) == a & 0xFFF,
        (((((inst >> 12u16) & 1) as u32) << 5u32) | ((((inst >> 4u16) & 7) as u32) << 2u32)
            | ((((inst >> 2u16) & 3) as u32) << 6u32)) == (((inst >> 12u16) & 1) as u32) * 32
            + (((inst >> 4u16) & 7) as u32) * 4 + (((inst >> 2u16) & 3) as u32) * 64
            && (((((inst >> 12u16) & 1) as u32) << 5u32) | ((((inst >> 4u16) & 7) as u32) << 2u32)
            | ((((inst >> 2u16) & 3) as u32) << 6u32)) & 0xFFF == (((inst >> 12u16) & 1) as u32)
            * 32 + (((inst >> 4u16) & 7) as u32) * 4 + (((inst >> 2u16) & 3) as u32) * 64,
        (((((inst >> 12u16) & 1) as u32) << 5u32) | ((((inst >> 5u16) & 3) as u32) << 3u32)
            | ((((inst >> 2u16) & 7) as u32) << 6u32)) == (((inst >> 12u16) & 1) as u32) * 32
            + (((inst >> 5u16) & 3) as u32) * 8 + (((inst >> 2u16) & 7) as u32) * 64
            && (((((inst >> 12u16) & 1) as u32) << 5u32) | ((((inst >> 5u16) & 3) as u32) << 3u32)
            | ((((inst >> 2u16) & 7) as u32) << 6u32)) & 0xFFF == (((inst >> 12u16) & 1) as u32)
            * 32 + (((inst >> 5u16) & 3) as u32) * 8 + (((inst >> 2u16) & 7) as u32) * 64,
        (((((inst >> 9u16) & 0xF) as u32) << 2u32) | ((((inst >> 7u16) & 3) as u32) << 6u32))
            == (((inst >> 9u16) & 0xF) as u32) * 4 + (((inst >> 7u16) & 3) as u32) * 64
            && (((((inst >> 9u16) & 0xF) as u32) << 2u32)
            | ((((inst >> 7u16) & 3) as u32) << 6u32)) & 0xFFF == (((inst >> 9u16) & 0xF) as u32)
            * 4 + (((inst >> 7u16) & 3) as u32) * 64,
        (((((inst >> 10u16) & 7) as u32) << 3u32) | ((((inst >> 7u16) & 7) as u32) << 6u32))
            == (((inst >> 10u16) & 7) as u32) * 8 + (((inst >> 7u16) & 7) as u32) * 64
            && (((((inst >> 10u16) & 7) as u32) << 3u32)
            | ((((inst >> 7u16) & 7) as u32) << 6u32)) & 0xFFF == (((inst >> 10u16) & 7) as u32) * 8
            + (((inst >> 7u16) & 7) as u32) * 64,
        (((((inst >> 10u16) & 7) as u32) << 3u32) | ((((inst >> 6u16) & 1) as u32) << 2u32)
            | ((((inst >> 5u16) & 1) as u32) << 6u32)) == (((inst >> 10u16) & 7) as u32) * 8
            + (((inst >> 6u16) & 1) as u32) * 4 + (((inst >> 5u16) & 1) as u32) * 64
            && (((((inst >> 10u16) & 7) as u32) << 3u32) | ((((inst >> 6u16) & 1) as u32) << 2u32)
            | ((((inst >> 5u16) & 1) as u32) << 6u32)) & 0xFFF == (((inst >> 10u16) & 7) as u32) * 8
            + (((inst >> 6u16) & 1) as u32) * 4 + (((inst >> 5u16) & 1) as u32) * 64,
        (((((inst >> 10u16) & 7) as u32) << 3u32) | ((((inst >> 5u16) & 3) as u32) << 6u32))
            == (((inst >> 10u16) & 7) as u32) * 8 + (((inst >> 5u16) & 3) as u32) * 64
            && (((((inst >> 10u16) & 7) as u32) << 3u32)
            | ((((inst >> 5u16) & 3) as u32) << 6u32)) & 0xFFF == (((inst >> 10u16) & 7) as u32) * 8
            + (((inst >> 5u16) & 3) as u32) * 64,
        (((((inst >> 11u16) & 3) as u32) << 4u32) | ((((inst >> 7u16) & 0xF) as u32) << 6u32)
            | ((((inst >> 6u16) & 1) as u32) << 2u32) | ((((inst >> 5u16) & 1) as u32) << 3u32))
            == (((inst >> 11u16) & 3) as u32) * 16 + (((inst >> 7u16) & 0xF) as u32) * 64
            + (((inst >> 6u16) & 1) as u32) * 4 + (((inst >> 5u16) & 1) as u32) * 8
            && (((((inst >> 11u16) & 3) as u32) << 4u32) | ((((inst >> 7u16) & 0xF) as u32) << 6u32)
            | ((((inst >> 6u16) & 1) as u32) << 2u32)
            | ((((inst >> 5u16) & 1) as u32) << 3u32)) & 0xFFF == (((inst >> 11u16) & 3) as u32)
            * 16 + (((inst >> 7u16) & 0xF) as u32) * 64 + (((inst >> 6u16) & 1) as u32) * 4
            + (((inst >> 5u16) & 1) as u32) * 8,
        (((((inst >> 12u16) & 1) as u32) << 9u32) | ((((inst >> 6u16) & 1) as u32) << 4u32)
            | ((((inst >> 5u16) & 1) as u32) << 6u32) | ((((inst >> 3u16) & 3) as u32) << 7u32)
            | ((((inst >> 2u16) & 1) as u32) << 5u32)) == (((inst >> 12u16) & 1) as u32) * 512
            + (((inst >> 6u16) & 1) as u32) * 16 + (((inst >> 5u16) & 1) as u32) * 64
            + (((inst >> 3u16) & 3) as u32) * 128 + (((inst >> 2u16) & 1) as u32) * 32
            && (((((inst >> 12u16) & 1) as u32) << 9u32) | ((((inst >> 6u16) & 1) as u32) << 4u32)
            | ((((inst >> 5u16) & 1) as u32) << 6u32) | ((((inst >> 3u16) & 3) as u32) << 7u32)
            | ((((inst >> 2u16) & 1) as u32) << 5u32)) & 0xFFF == (((inst >> 12u16) & 1) as u32)
            * 512 + (((inst >> 6u16) & 1) as u32) * 16 + (((inst >> 5u16) & 1) as u32) * 64
            + (((inst >> 3u16) & 3) as u32) * 128 + (((inst >> 2u16) & 1) as u32) * 32
            && ((((((inst >> 12u16) & 1) as u32) << 9u32) | ((((inst >> 6u16) & 1) as u32) << 4u32)
            | ((((inst >> 5u16) & 1) as u32) << 6u32) | ((((inst >> 3u16) & 3) as u32) << 7u32)
            | ((((inst >> 2u16) & 1) as u32) << 5u32)) | 0xFFFF_FC00) & 0xFFF
            == (((inst >> 12u16) & 1) as u32) * 512 + (((inst >> 6u16) & 1) as u32) * 16
            + (((inst >> 5u16) & 1) as u32) * 64 + (((inst >> 3u16) & 3) as u32) * 128
            + (((inst >> 2u16) & 1) as u32) * 32 + 0xC00 && (((inst >> 2u16) & 0x1F == 0)
            == ((((inst >> 6u16) & 1) as u32) == 0 && (((inst
            >> 5u16) & 1) as u32) == 0 && (((inst >> 3u16) & 3) as u32) == 0
                && (((inst >> 2u16) & 1) as u32) == 0)),
        (c | 0xFFFF_FC00) != 0,
        0u32 & 0xFFF == 0,
        0x0010_0073u32 & 3 == 3 && 0x0010_0073u32 & 0x7F == 0x73 && (0x0010_0073u32 >> 7u32) & 0x1F
            == 0 && (0x0010_0073u32 >> 12u32) & 7 == 0 && (0x0010_0073u32 >> 15u32) & 0x1F == 0
            && 0x0010_0073u32 >> 20u32 == 1,
        rs2 < 2 && rd < 32 ==> ((rs2 << 5u32) | rd) == rs2 * 32 + rd && ((rs2 << 5u32) | rd) & 0xFFF
            == rs2 * 32 + rd && (((rs2 << 5u32) | rd) & 0xFFF) >> 5u32 == rs2 && (((rs2 << 5u32)
            | rd) | 0x400) & 0xFFF == rs2 * 32 + rd + 0x400 && ((((rs2 << 5u32) | rd) | 0x400)
            & 0xFFF) >> 5u32 == rs2 + 0x20 && (((rs2 << 5u32) | rd) | 0xFFFF_FFC0) & 0xFFF == rs2
            * 32 + rd + 0xFC0,
        u < 0x1000 && u % 2 == 0 && inst == 0xA001u16 | (((u >> 11u16) & 1) << 12u16)
            | (((u >> 4u16) & 1) << 11u16) | (((u >> 8u16) & 3)
            << 9u16) | (((u >> 10u16) & 1) << 8u16) | (((u >> 6u16) & 1) << 7u16)
                | (((u >> 7u16) & 1)
            << 6u16) | (((u >> 1u16) & 7) << 3u16) | (((u >> 5u16) & 1) << 2u16) ==> inst & 3 == 1
                && (inst >> 13u16) & 7 == 5
            && ((inst >> 12u16) & 1 == 1) == (u >= 0x800),
        u < 0x1000 && u % 2 == 0 && inst == 0xA001u16 | (((u >> 11u16) & 1) << 12u16)
            | (((u >> 4u16) & 1) << 11u16) | (((u >> 8u16) & 3)
            << 9u16) | (((u >> 10u16) & 1) << 8u16) | (((u >> 6u16) & 1) << 7u16)
                | (((u >> 7u16) & 1)
            << 6u16) | (((u >> 1u16) & 7) << 3u16) | (((u >> 5u16) & 1) << 2u16) && c
                == (if u >= 0x800 {
            (((((inst >> 12u16) & 1) as u32) << 11u32) | ((((inst >> 11u16) & 1) as u32) << 4u32)
                | ((((inst
            >> 9u16) & 3) as u32) << 8u32) | ((((inst >> 8u16) & 1) as u32) << 10u32) | ((((inst
            >> 7u16) & 1) as u32) << 6u32) | ((((inst >> 6u16) & 1) as u32) << 7u32) | ((((inst
            >> 3u16) & 7) as u32) << 1u32) | ((((inst >> 2u16) & 1) as u32) << 5u32)) | 0xFFFF_F000
        } else {
            ((((inst >> 12u16) & 1) as u32) << 11u32) | ((((inst >> 11u16) & 1) as u32) << 4u32)
                | ((((inst
            >> 9u16) & 3) as u32) << 8u32) | ((((inst >> 8u16) & 1) as u32) << 10u32) | ((((inst
            >> 7u16) & 1) as u32) << 6u32) | ((((inst >> 6u16) & 1) as u32) << 7u32) | ((((inst
            >> 3u16) & 7) as u32) << 1u32) | ((((inst >> 2u16) & 1) as u32) << 5u32)
        }) && w == (((c >> 20u32) & 1) << 31u32) | (((c >> 12u32) & 0xFF) << 12u32)
            | (((c >> 11u32) & 1)
            << 20u32) | (((c >> 1u32) & 0x3FF) << 21u32) | (0u32 << 7u32) | 0x6F ==> w & 3 == 3
                && w & 0x7F == 0x6F && (w >> 7u32) & 0x1F == 0 && (((w >> 31u32) & 1) << 20u32)
                | (w & 0xF_F000) | (((w >> 20u32) & 1) << 11u32) | (((w
            >> 21u32) & 0x3FF) << 1u32)
            == (if u >= 0x800 {
            ((u as u32) + 0x1F_F000) as u32
        } else {
            u as u32
        }),
        u < 0x200 && u % 2 == 0 && f3 < 2 && 8 <= rs1 < 16 && inst == ((6 + f3) as u16) << 13u16
            | (((u >> 8u16) & 1) << 12u16) | (((u >> 3u16) & 3) << 10u16) | (((rs1
            - 8) as u16) << 7u16) | (((u >> 6u16) & 3) << 5u16) | (((u >> 1u16) & 3) << 3u16) | (((u
            >> 5u16) & 1) << 2u16) | 1u16 ==> inst & 3 == 1 && (inst
            >> 13u16) & 7 == 6 + f3 && (inst >> 7u16) & 7 == rs1 - 8 && ((inst >> 12u16) & 1 == 1)
            == (u >= 0x100),
        u < 0x200 && u % 2 == 0 && f3 < 2 && 8 <= rs1 < 16 && inst == ((6 + f3) as u16) << 13u16
            | (((u >> 8u16) & 1) << 12u16) | (((u >> 3u16) & 3) << 10u16) | (((rs1
            - 8) as u16) << 7u16) | (((u >> 6u16) & 3) << 5u16) | (((u >> 1u16) & 3) << 3u16) | (((u
            >> 5u16) & 1) << 2u16) | 1u16 && c == (if u >= 0x100 {
            (((((inst >> 12u16) & 1) as u32) << 8u32) | ((((inst >> 10u16) & 3) as u32) << 3u32)
                | ((((inst
            >> 5u16) & 3) as u32) << 6u32) | ((((inst >> 3u16) & 3) as u32) << 1u32) | ((((inst
            >> 2u16) & 1) as u32) << 5u32)) | 0xFFFF_FE00
        } else {
            ((((inst >> 12u16) & 1) as u32) << 8u32) | ((((inst >> 10u16) & 3) as u32) << 3u32)
                | ((((inst
            >> 5u16) & 3) as u32) << 6u32) | ((((inst >> 3u16) & 3) as u32) << 1u32) | ((((inst
            >> 2u16) & 1) as u32) << 5u32)
        }) && w == (((c >> 12u32) & 1) << 31u32) | (((c >> 5u32) & 0x3F) << 25u32) | (0u32 << 20u32)
            | (rs1
            << 15u32) | (f3
            << 12u32) | (((c >> 1u32) & 0xF) << 8u32) | (((c >> 11u32) & 1) << 7u32) | 0x63
                ==> w & 3 == 3 && w & 0x7F == 0x63 && (w >> 12u32) & 7 == f3 && (w
            >> 15u32) & 0x1F == rs1 && (w >> 20u32) & 0x1F == 0 && (((w >> 31u32) & 1) << 12u32)
                | (((w >> 7u32) & 1) << 11u32) | (((w >> 25u32) & 0x3F)
            << 5u32) | (((w >> 8u32) & 0xF) << 1u32) == (if u >= 0x100 {
            ((u as u32) + 0x1E00) as u32
        } else {
            u as u32
        }),
{
}

/// The register-register group of quadrant 1 (funct3 `100`, bits 11:10
/// `11`) decodes to the 32-bit operation of the same name on x8..x15, with
/// `8 + inst[9:7]` as destination and first source and `8 + inst[4:2]` as
/// second source.  With bit 12 clear, bits 6:5 select C.SUB (OP, funct3
/// `000`, funct7 `0100000`), C.XOR, C.OR and C.AND (OP, funct3 `100`, `110`,
/// `111`, funct7 0); with bit 12 set, `00` is C.SUBW (OP-32, `000`,
/// `0100000`) and `01` is C.ADDW (OP-32, `000`, funct7 0).
pub proof fn lemma_c_register_alu(inst: u16)
    requires
        inst & 3 == 1,
        (inst >> 13u16) & 7 == 4,
        (inst >> 10u16) & 3 == 3,
        (inst >> 12u16) & 1 == 0 || (inst >> 5u16) & 3 < 2,
    ensures
        decode_16bit_spec(inst) is Ok,
        decode_16bit_spec(inst)->Ok_0.rd == Some((8 + ((inst >> 7u16) & 7)) as u8),
        decode_16bit_spec(inst)->Ok_0.rs1 == Some((8 + ((inst >> 7u16) & 7)) as u8),
        decode_16bit_spec(inst)->Ok_0.rs2 == Some((8 + ((inst >> 2u16) & 7)) as u8),
        (inst >> 12u16) & 1 == 0 ==> decode_16bit_spec(inst)->Ok_0.opcode == Opcode::Op,
        (inst >> 12u16) & 1 == 1 ==> decode_16bit_spec(inst)->Ok_0.opcode == Opcode::Op32,
        (inst >> 5u16) & 3 == 0 ==> decode_16bit_spec(inst)->Ok_0.funct3 == Some(Funct3::AddSub)
            && decode_16bit_spec(inst)->Ok_0.funct7 == Some(0x20u8),
        (inst >> 12u16) & 1 == 0 && (inst >> 5u16) & 3 == 1 ==> decode_16bit_spec(inst)->Ok_0.funct3
            == Some(Funct3::Xor) && decode_16bit_spec(inst)->Ok_0.funct7 == Some(0u8),
        (inst >> 12u16) & 1 == 0 && (inst >> 5u16) & 3 == 2 ==> decode_16bit_spec(inst)->Ok_0.funct3
            == Some(Funct3::Or) && decode_16bit_spec(inst)->Ok_0.funct7 == Some(0u8),
        (inst >> 12u16) & 1 == 0 && (inst >> 5u16) & 3 == 3 ==> decode_16bit_spec(inst)->Ok_0.funct3
            == Some(Funct3::And) && decode_16bit_spec(inst)->Ok_0.funct7 == Some(0u8),
        (inst >> 12u16) & 1 == 1 && (inst >> 5u16) & 3 == 1 ==> decode_16bit_spec(inst)->Ok_0.funct3
            == Some(Funct3::AddSub) && decode_16bit_spec(inst)->Ok_0.funct7 == Some(0u8),
{
    lemma_c_regs(inst);
    let rdp = c_rs1p(inst);
    let rs2p = c_rdp(inst);
    let f2 = (inst >> 5u16) & 3;
    let b12 = (inst >> 12u16) & 1;
    assert(inst & 3 != 0 && inst & 3 != 2 && inst & 3 != 3);
    let op = if b12 == 0 {
        Opcode::Op
    } else {
        Opcode::Op32
    };
    let f3 = if b12 == 1 || f2 == 0 {
        Funct3::AddSub
    } else if f2 == 1 {
        Funct3::Xor
    } else if f2 == 2 {
        Funct3::Or
    } else {
        Funct3::And
    };
    let f7: u8 = if f2 == 0 {
        0x20
    } else {
        0
    };
    assert(b12 == 0 || b12 == 1);
    assert(expand_spec(inst) == Ok::<u32, DecodeError>(r_word(op, rdp, rdp, rs2p, f3, f7)));
    let w = r_word(op, rdp, rdp, rs2p, f3, f7);
    lemma_word_layouts(
        f7 as u32,
        rs2p as u32,
        rdp as u32,
        funct3_bits(f3),
        rdp as u32,
        opcode_bits(op),
        w,
        0,
        0,
        0,
    );
    assert(opcode_of(w & 0x7F) == Some(op));
}

/// The immediate forms of the quadrant-1 arithmetic group (funct3 `100`,
/// bits 11:10 `00`, `01`, `10`) decode to OP-IMM on `8 + inst[9:7]`, as
/// destination and source, with the 6-bit field `inst[12|6:2]`: C.SRLI to a
/// logical right shift by it (immediate = the shift amount, funct7 bit 5
/// clear), C.SRAI to an arithmetic one (immediate = the shift amount with
/// bit 10 set, funct7 bit 5 set), C.ANDI to ANDI with the field read as a
/// signed 6-bit number.
pub proof fn lemma_c_immediate_alu(inst: u16)
    requires
        inst & 3 == 1,
        (inst >> 13u16) & 7 == 4,
        (inst >> 10u16) & 3 < 3,
    ensures
        decode_16bit_spec(inst) is Ok,
        decode_16bit_spec(inst)->Ok_0.opcode == Opcode::OpImm,
        decode_16bit_spec(inst)->Ok_0.rd == Some((8 + ((inst >> 7u16) & 7)) as u8),
        decode_16bit_spec(inst)->Ok_0.rs1 == Some((8 + ((inst >> 7u16) & 7)) as u8),
        decode_16bit_spec(inst)->Ok_0.imm is Some,
        (inst >> 10u16) & 3 == 0 ==> decode_16bit_spec(inst)->Ok_0.funct3 == Some(Funct3::SrlSra)
            && decode_16bit_spec(inst)->Ok_0.imm->0 == ((inst >> 12u16) & 1) * 32 + ((inst >> 2u16)
            & 0x1F) && decode_16bit_spec(inst)->Ok_0.funct7 == Some(((inst >> 12u16) & 1) as u8),
        (inst >> 10u16) & 3 == 1 ==> decode_16bit_spec(inst)->Ok_0.funct3 == Some(Funct3::SrlSra)
            && decode_16bit_spec(inst)->Ok_0.imm->0 == 0x400 + ((inst >> 12u16) & 1) * 32 + ((inst
            >> 2u16) & 0x1F) && decode_16bit_spec(inst)->Ok_0.funct7 == Some(
            (0x20 + ((inst >> 12u16) & 1)) as u8,
        ),
        (inst >> 10u16) & 3 == 2 ==> decode_16bit_spec(inst)->Ok_0.funct3 == Some(Funct3::And)
            && signed64(sext12(decode_16bit_spec(inst)->Ok_0.imm->0)) == ((inst >> 2u16) & 0x1F)
            - ((inst >> 12u16) & 1) * 32,
{
    lemma_c_regs(inst);
    let rdp = c_rs1p(inst);
    let t = (inst >> 10u16) & 3;
    let b12 = ((inst >> 12u16) & 1) as u32;
    let low5 = ((inst >> 2u16) & 0x1F) as u32;
    assert(inst & 3 != 0 && inst & 3 != 2 && inst & 3 != 3);
    let f3 = if t == 2 {
        Funct3::And
    } else {
        Funct3::SrlSra
    };
    let imm = if t == 0 {
        c_shamt(inst, false)
    } else if t == 1 {
        c_shamt(inst, true)
    } else {
        c_imm(inst)
    };
    assert(expand_spec(inst) == Ok::<u32, DecodeError>(i_word(Opcode::OpImm, rdp, rdp, f3, imm)));
    let w = i_word(Opcode::OpImm, rdp, rdp, f3, imm);
    lemma_word_layouts(imm, b12, rdp as u32, funct3_bits(f3), rdp as u32, 0x13, w, 0, 0, 0);
    lemma_word_layouts(0, b12, 0, 0, low5, 0, 0, 0, 0, 0);
    assert(opcode_of(w & 0x7F) == Some(Opcode::OpImm));
}

/// The C.J word that jumps by `offset`: its low 12 bits laid out as
/// offset[11|4|9:8|10|6|7|3:1|5] in bits 12:2.
pub open spec fn c_j_encoding(offset: int) -> u16 {
    let u = (offset % 0x1000) as u16;
    0xA001u16 | (((u >> 11u16) & 1) << 12u16) | (((u >> 4u16) & 1) << 11u16) | (((u >> 8u16) & 3)
        << 9u16) | (((u >> 10u16) & 1) << 8u16) | (((u >> 6u16) & 1) << 7u16) | (((u >> 7u16) & 1)
        << 6u16) | (((u >> 1u16) & 7) << 3u16) | (((u >> 5u16) & 1) << 2u16)
}

/// The C.BEQZ (or, with `bnez`, C.BNEZ) word that tests `8 + rs1p` and
/// jumps by `offset`: its low 9 bits laid out as offset[8|4:3] in bits
/// 12:10 and offset[7:6|2:1|5] in bits 6:2.
pub open spec fn c_branch_encoding(offset: int, rs1p: u8, bnez: bool) -> u16 {
    let u = (offset % 0x200) as u16;
    let f3: u32 = if bnez {
        1
    } else {
        0
    };
    ((6 + f3) as u16) << 13u16 | (((u >> 8u16) & 1) << 12u16) | (((u >> 3u16) & 3) << 10u16) | ((
    rs1p as u16) << 7u16) | (((u >> 6u16) & 3) << 5u16) | (((u >> 1u16) & 3) << 3u16) | (((u
        >> 5u16) & 1) << 2u16) | 1u16
}

/// Decoding the C.J encoding of any even offset in [-2^11, 2^11) gives
/// `jal x0` whose immediate, sign-extended, is that offset.
pub proof fn lemma_c_j_round_trip(offset: int)
    requires
        -0x800 <= offset < 0x800,
        offset % 2 == 0,
    ensures
        decode_16bit_spec(c_j_encoding(offset)) is Ok,
        decode_16bit_spec(c_j_encoding(offset))->Ok_0.opcode == Opcode::Jal,
        decode_16bit_spec(c_j_encoding(offset))->Ok_0.rd == Some(0u8),
        decode_16bit_spec(c_j_encoding(offset))->Ok_0.imm is Some,
        signed64(sext21(decode_16bit_spec(c_j_encoding(offset))->Ok_0.imm->0)) == offset,
{
    let u = (offset % 0x1000) as u16;
    if offset >= 0 {
        assert(u == offset);
    } else {
        assert(u == offset + 0x1000);
    }
    let inst = c_j_encoding(offset);
    let c = c_j_imm(inst);
    let w = j_word(Opcode::Jal, 0, c);
    lemma_c_regs(inst);
    lemma_word_layouts(0, 0, 0, 0, 0, 0, w, inst, u, c);
    assert(expand_spec(inst) == Ok::<u32, DecodeError>(w));
    assert(opcode_of(w & 0x7F) == Some(Opcode::Jal));
}

/// Decoding the C.BEQZ or C.BNEZ encoding of any even offset in
/// [-2^8, 2^8) and register `8 + rs1p` gives BEQ or BNE of that register
/// against x0 whose immediate, sign-extended, is that offset.
pub proof fn lemma_c_branch_round_trip(offset: int, rs1p: u8, bnez: bool)
    requires
        -0x100 <= offset < 0x100,
        offset % 2 == 0,
        rs1p < 8,
    ensures
        decode_16bit_spec(c_branch_encoding(offset, rs1p, bnez)) is Ok,
        decode_16bit_spec(c_branch_encoding(offset, rs1p, bnez))->Ok_0.opcode == Opcode::Branch,
        decode_16bit_spec(c_branch_encoding(offset, rs1p, bnez))->Ok_0.funct3 == Some(
            if bnez {
                Funct3::Sll
            } else {
                Funct3::AddSub
            },
        ),
        decode_16bit_spec(c_branch_encoding(offset, rs1p, bnez))->Ok_0.rs1 == Some((8
            + rs1p) as u8),
        decode_16bit_spec(c_branch_encoding(offset, rs1p, bnez))->Ok_0.rs2 == Some(0u8),
        decode_16bit_spec(c_branch_encoding(offset, rs1p, bnez))->Ok_0.imm is Some,
        signed64(sext13(decode_16bit_spec(c_branch_encoding(offset, rs1p, bnez))->Ok_0.imm->0))
            == offset,
{
    let u = (offset % 0x200) as u16;
    if offset >= 0 {
        assert(u == offset);
    } else {
        assert(u == offset + 0x200);
    }
    let f3: u32 = if bnez {
        1
    } else {
        0
    };
    let inst = c_branch_encoding(offset, rs1p, bnez);
    let c = c_b_imm(inst);
    let f = if bnez {
        Funct3::Sll
    } else {
        Funct3::AddSub
    };
    let w = b_word(Opcode::Branch, c_rs1p(inst), 0, f, c);
    lemma_word_layouts(0, 0, (8 + rs1p) as u32, f3, 0, 0, w, inst, u, c);
    lemma_c_regs(inst);
    assert(expand_spec(inst) == Ok::<u32, DecodeError>(w));
    assert(opcode_of(w & 0x7F) == Some(Opcode::Branch));
}

/// The stack-pointer loads and stores of quadrant 2 decode to the 32-bit
/// access of the same width based on x2, with the unsigned offset the ISA
/// assembles from the instruction: C.LWSP (funct3 `010`) to LW into
/// `inst[11:7]` with offset inst[12]*32 + inst[6:4]*4 + inst[3:2]*64,
/// C.LDSP (`011`) to LD with inst[12]*32 + inst[6:5]*8 + inst[4:2]*64,
/// C.SWSP (`110`) to SW of `inst[6:2]` with inst[12:9]*4 + inst[8:7]*64,
/// and C.SDSP (`111`) to SD with inst[12:10]*8 + inst[9:7]*64.
pub proof fn lemma_c_stack_offsets(inst: u16)
    requires
        inst & 3 == 2,
        ((inst >> 13u16) & 7) == 2 || ((inst >> 13u16) & 7) == 3 || ((inst >> 13u16) & 7) == 6
            || ((inst >> 13u16) & 7) == 7,
        ((inst >> 13u16) & 7) == 2 || ((inst >> 13u16) & 7) == 3 ==> (inst >> 7u16) & 0x1F != 0,
    ensures
        decode_16bit_spec(inst) is Ok,
        decode_16bit_spec(inst)->Ok_0.imm is Some,
        decode_16bit_spec(inst)->Ok_0.rs1 == Some(2u8),
        ((inst >> 13u16) & 7) == 2 ==> decode_16bit_spec(inst)->Ok_0.opcode == Opcode::Load
            && decode_16bit_spec(inst)->Ok_0.funct3 == Some(Funct3::Slt)
            && decode_16bit_spec(inst)->Ok_0.rd == Some(((inst >> 7u16) & 0x1F) as u8)
            && decode_16bit_spec(inst)->Ok_0.imm->0 as int == ((inst >> 12u16) & 1) * 32
            + ((inst >> 4u16) & 7) * 4 + ((inst >> 2u16) & 3) * 64,
        ((inst >> 13u16) & 7) == 3 ==> decode_16bit_spec(inst)->Ok_0.opcode == Opcode::Load
            && decode_16bit_spec(inst)->Ok_0.funct3 == Some(Funct3::Sltu)
            && decode_16bit_spec(inst)->Ok_0.rd == Some(((inst >> 7u16) & 0x1F) as u8)
            && decode_16bit_spec(inst)->Ok_0.imm->0 as int == ((inst >> 12u16) & 1) * 32
            + ((inst >> 5u16) & 3) * 8 + ((inst >> 2u16) & 7) * 64,
        ((inst >> 13u16) & 7) == 6 ==> decode_16bit_spec(inst)->Ok_0.opcode == Opcode::Store
            && decode_16bit_spec(inst)->Ok_0.funct3 == Some(Funct3::Slt)
            && decode_16bit_spec(inst)->Ok_0.rs2 == Some(((inst >> 2u16) & 0x1F) as u8)
            && decode_16bit_spec(inst)->Ok_0.imm->0 as int == ((inst >> 9u16) & 0xF) * 4
            + ((inst >> 7u16) & 3) * 64,
        ((inst >> 13u16) & 7) == 7 ==> decode_16bit_spec(inst)->Ok_0.opcode == Opcode::Store
            && decode_16bit_spec(inst)->Ok_0.funct3 == Some(Funct3::Sltu)
            && decode_16bit_spec(inst)->Ok_0.rs2 == Some(((inst >> 2u16) & 0x1F) as u8)
            && decode_16bit_spec(inst)->Ok_0.imm->0 as int == ((inst >> 10u16) & 7) * 8
            + ((inst >> 7u16) & 7) * 64,
{
    lemma_c_regs(inst);
    let f3 = ((inst >> 13u16) & 7);
    let rd = c_rd(inst);
    let rs2 = c_rs2(inst);
    assert(inst & 3 != 0 && inst & 3 != 1 && inst & 3 != 3);
    if f3 == 2 {
        let w = i_word(Opcode::Load, rd, 2, Funct3::Slt, c_lwsp_off(inst));
        lemma_word_layouts(c_lwsp_off(inst), 0, 2u8 as u32, 2, rd as u32, 0x03, w, inst, 0, 0);
        assert(expand_spec(inst) == Ok::<u32, DecodeError>(w));
        assert(opcode_of(w & 0x7F) == Some(Opcode::Load));
    } else if f3 == 3 {
        let w = i_word(Opcode::Load, rd, 2, Funct3::Sltu, c_ldsp_off(inst));
        lemma_word_layouts(c_ldsp_off(inst), 0, 2u8 as u32, 3, rd as u32, 0x03, w, inst, 0, 0);
        assert(expand_spec(inst) == Ok::<u32, DecodeError>(w));
        assert(opcode_of(w & 0x7F) == Some(Opcode::Load));
    } else if f3 == 6 {
        let w = s_word(Opcode::Store, 2, rs2, Funct3::Slt, c_swsp_off(inst));
        lemma_word_layouts(c_swsp_off(inst), rs2 as u32, 2u8 as u32, 2, 0, 0x23, w, inst, 0, 0);
        assert(expand_spec(inst) == Ok::<u32, DecodeError>(w));
        assert(opcode_of(w & 0x7F) == Some(Opcode::Store));
    } else {
        let w = s_word(Opcode::Store, 2, rs2, Funct3::Sltu, c_sdsp_off(inst));
        lemma_word_layouts(c_sdsp_off(inst), rs2 as u32, 2u8 as u32, 3, 0, 0x23, w, inst, 0, 0);
        assert(expand_spec(inst) == Ok::<u32, DecodeError>(w));
        assert(opcode_of(w & 0x7F) == Some(Opcode::Store));
    }
}

/// The register-based loads and stores and C.ADDI4SPN of quadrant 0 decode
/// with the unsigned offset the ISA assembles from the instruction, on
/// base `8 + inst[9:7]` (x2 for C.ADDI4SPN) and data register
/// `8 + inst[4:2]`: C.LW (funct3 `010`) to LW and C.SW (`110`) to SW with
/// inst[12:10]*8 + inst[6]*4 + inst[5]*64, C.FLD (`001`) to FLD and C.FSD
/// (`101`) to FSD with inst[12:10]*8 + inst[6:5]*64, and C.ADDI4SPN (`000`,
/// nonzero immediate) to ADDI from x2 with inst[12:11]*16 + inst[10:7]*64 +
/// inst[6]*4 + inst[5]*8.
pub proof fn lemma_c_register_offsets(inst: u16)
    requires
        inst & 3 == 0,
        ((inst >> 13u16) & 7) == 0 || ((inst >> 13u16) & 7) == 1 || ((inst >> 13u16) & 7) == 2
            || ((inst >> 13u16) & 7) == 5 || ((inst >> 13u16) & 7) == 6,
        ((inst >> 13u16) & 7) == 0 ==> (inst >> 5u16) & 0xFF != 0,
    ensures
        decode_16bit_spec(inst) is Ok,
        decode_16bit_spec(inst)->Ok_0.imm is Some,
        ((inst >> 13u16) & 7) == 0 ==> decode_16bit_spec(inst)->Ok_0.opcode == Opcode::OpImm
            && decode_16bit_spec(inst)->Ok_0.funct3 == Some(Funct3::AddSub)
            && decode_16bit_spec(inst)->Ok_0.rs1 == Some(2u8) && decode_16bit_spec(inst)->Ok_0.rd
            == Some((8 + ((inst >> 2u16) & 7)) as u8)
            && decode_16bit_spec(inst)->Ok_0.imm->0 as int == ((inst >> 11u16) & 3) * 16
            + ((inst >> 7u16) & 0xF) * 64 + ((inst >> 6u16) & 1) * 4 + ((inst >> 5u16) & 1) * 8,
        ((inst >> 13u16) & 7) == 2 ==> decode_16bit_spec(inst)->Ok_0.opcode == Opcode::Load
            && decode_16bit_spec(inst)->Ok_0.funct3 == Some(Funct3::Slt)
            && decode_16bit_spec(inst)->Ok_0.rs1 == Some((8 + ((inst >> 7u16) & 7)) as u8)
            && decode_16bit_spec(inst)->Ok_0.rd == Some(
            (8 + ((inst >> 2u16) & 7)) as u8,
        ) && decode_16bit_spec(inst)->Ok_0.imm->0 as int == ((inst >> 10u16) & 7) * 8
            + ((inst >> 6u16) & 1) * 4 + ((inst >> 5u16) & 1) * 64,
        ((inst >> 13u16) & 7) == 6 ==> decode_16bit_spec(inst)->Ok_0.opcode == Opcode::Store
            && decode_16bit_spec(inst)->Ok_0.funct3 == Some(Funct3::Slt)
            && decode_16bit_spec(inst)->Ok_0.rs1 == Some((8 + ((inst >> 7u16) & 7)) as u8)
            && decode_16bit_spec(inst)->Ok_0.rs2 == Some(
            (8 + ((inst >> 2u16) & 7)) as u8,
        ) && decode_16bit_spec(inst)->Ok_0.imm->0 as int == ((inst >> 10u16) & 7) * 8
            + ((inst >> 6u16) & 1) * 4 + ((inst >> 5u16) & 1) * 64,
        ((inst >> 13u16) & 7) == 1 ==> decode_16bit_spec(inst)->Ok_0.opcode == Opcode::LoadFp
            && decode_16bit_spec(inst)->Ok_0.funct3 == Some(Funct3::Sltu)
            && decode_16bit_spec(inst)->Ok_0.rs1 == Some((8 + ((inst >> 7u16) & 7)) as u8)
            && decode_16bit_spec(inst)->Ok_0.rd == Some(
            (8 + ((inst >> 2u16) & 7)) as u8,
        ) && decode_16bit_spec(inst)->Ok_0.imm->0 as int == ((inst >> 10u16) & 7) * 8
            + ((inst >> 5u16) & 3) * 64,
        ((inst >> 13u16) & 7) == 5 ==> decode_16bit_spec(inst)->Ok_0.opcode == Opcode::StoreFp
            && decode_16bit_spec(inst)->Ok_0.funct3 == Some(Funct3::Sltu)
            && decode_16bit_spec(inst)->Ok_0.rs1 == Some((8 + ((inst >> 7u16) & 7)) as u8)
            && decode_16bit_spec(inst)->Ok_0.rs2 == Some(
            (8 + ((inst >> 2u16) & 7)) as u8,
        ) && decode_16bit_spec(inst)->Ok_0.imm->0 as int == ((inst >> 10u16) & 7) * 8
            + ((inst >> 5u16) & 3) * 64,
{
    lemma_c_regs(inst);
    let f3 = ((inst >> 13u16) & 7);
    let rdp = c_rdp(inst);
    let rs1p = c_rs1p(inst);
    assert(inst & 3 != 1 && inst & 3 != 2 && inst & 3 != 3);
    if f3 == 0 {
        let w = i_word(Opcode::OpImm, rdp, 2, Funct3::AddSub, c_addi4spn_imm(inst));
        lemma_word_layouts(c_addi4spn_imm(inst), 0, 2u8 as u32, 0, rdp as u32, 0x13, w, inst, 0, 0);
        assert(expand_spec(inst) == Ok::<u32, DecodeError>(w));
        assert(opcode_of(w & 0x7F) == Some(Opcode::OpImm));
    } else if f3 == 1 {
        let w = i_word(Opcode::LoadFp, rdp, rs1p, Funct3::Sltu, c_d_off(inst));
        lemma_word_layouts(c_d_off(inst), 0, rs1p as u32, 3, rdp as u32, 0x07, w, inst, 0, 0);
        assert(expand_spec(inst) == Ok::<u32, DecodeError>(w));
        assert(opcode_of(w & 0x7F) == Some(Opcode::LoadFp));
    } else if f3 == 2 {
        let w = i_word(Opcode::Load, rdp, rs1p, Funct3::Slt, c_w_off(inst));
        lemma_word_layouts(c_w_off(inst), 0, rs1p as u32, 2, rdp as u32, 0x03, w, inst, 0, 0);
        assert(expand_spec(inst) == Ok::<u32, DecodeError>(w));
        assert(opcode_of(w & 0x7F) == Some(Opcode::Load));
    } else if f3 == 5 {
        let w = s_word(Opcode::StoreFp, rs1p, rdp, Funct3::Sltu, c_d_off(inst));
        lemma_word_layouts(c_d_off(inst), rdp as u32, rs1p as u32, 3, 0, 0x27, w, inst, 0, 0);
        assert(expand_spec(inst) == Ok::<u32, DecodeError>(w));
        assert(opcode_of(w & 0x7F) == Some(Opcode::StoreFp));
    } else {
        let w = s_word(Opcode::Store, rs1p, rdp, Funct3::Slt, c_w_off(inst));
        lemma_word_layouts(c_w_off(inst), rdp as u32, rs1p as u32, 2, 0, 0x23, w, inst, 0, 0);
        assert(expand_spec(inst) == Ok::<u32, DecodeError>(w));
        assert(opcode_of(w & 0x7F) == Some(Opcode::Store));
    }
}

/// C.ADDI16SP (quadrant 1, funct3 `011`, `rd` = x2, nonzero immediate)
/// decodes to ADDI x2, x2 with the immediate the ISA assembles:
/// inst[6]*16 + inst[5]*64 + inst[4:3]*128 + inst[2]*32, less 512 when
/// inst[12] is set.
pub proof fn lemma_c_addi16sp(inst: u16)
    requires
        inst & 3 == 1,
        ((inst >> 13u16) & 7) == 3,
        (inst >> 7u16) & 0x1F == 2,
        (inst >> 12u16) & 1 == 1 || (inst >> 2u16) & 0x1F != 0,
    ensures
        decode_16bit_spec(inst) is Ok,
        decode_16bit_spec(inst)->Ok_0.opcode == Opcode::OpImm,
        decode_16bit_spec(inst)->Ok_0.funct3 == Some(Funct3::AddSub),
        decode_16bit_spec(inst)->Ok_0.rd == Some(2u8),
        decode_16bit_spec(inst)->Ok_0.rs1 == Some(2u8),
        decode_16bit_spec(inst)->Ok_0.imm is Some,
        signed64(sext12(decode_16bit_spec(inst)->Ok_0.imm->0)) == ((inst >> 6u16) & 1) * 16
            + ((inst >> 5u16) & 1) * 64 + ((inst >> 3u16) & 3) * 128 + ((inst >> 2u16) & 1) * 32
            - ((inst >> 12u16) & 1) * 512,
{
    lemma_c_regs(inst);
    let c = c_addi16sp_imm(inst);
    assert(inst & 3 != 0 && inst & 3 != 2 && inst & 3 != 3);
    let v = cfield(inst, 12, 1, 9) | cfield(inst, 6, 1, 4) | cfield(inst, 5, 1, 6)
        | cfield(inst, 3, 3, 7)
        | cfield(inst, 2, 1, 5);
    let w = i_word(Opcode::OpImm, 2, 2, Funct3::AddSub, c);
    lemma_word_layouts(c, 0, 2u8 as u32, 0, 2u8 as u32, 0x13, w, inst, 0, v);
    assert(c != 0);
    assert(expand_spec(inst) == Ok::<u32, DecodeError>(w));
    assert(opcode_of(w & 0x7F) == Some(Opcode::OpImm));
    lemma_sign_extensions(0, 0, 0, c & 0xFFF);
}

/// The register group of quadrant 2 (funct3 `100`) decodes as the ISA
/// defines it, with `rd`/`rs1` = inst[11:7] and `rs2` = inst[6:2]: with
/// bit 12 clear, C.JR (`rs2` = 0, `rd` not 0) is JALR x0, 0(rd) and C.MV
/// (`rs2` not 0) is ADD rd, x0, rs2; with bit 12 set, C.EBREAK (both 0) is
/// EBREAK (SYSTEM, funct3 0, immediate 1), C.JALR (`rs2` = 0) is JALR x1,
/// 0(rd) and C.ADD is ADD rd, rd, rs2.
pub proof fn lemma_c_mv_add(inst: u16)
    requires
        inst & 3 == 2,
        ((inst >> 13u16) & 7) == 4,
        ((inst >> 12u16) & 1) == 1 || ((inst >> 2u16) & 0x1F) != 0 || ((inst >> 7u16) & 0x1F) != 0,
    ensures
        decode_16bit_spec(inst) is Ok,
        ((inst >> 2u16) & 0x1F) == 0 ==> decode_16bit_spec(inst)->Ok_0.funct3
            == Some(Funct3::AddSub) && decode_16bit_spec(inst)->Ok_0.imm == Some(
            if ((inst >> 12u16) & 1) == 1 && ((inst >> 7u16) & 0x1F) == 0 {
                1u32
            } else {
                0u32
            },
        ) && decode_16bit_spec(inst)->Ok_0.rs1 == Some(((inst >> 7u16) & 0x1F) as u8),
        ((inst >> 2u16) & 0x1F) == 0 && ((inst >> 7u16) & 0x1F) != 0
            ==> decode_16bit_spec(inst)->Ok_0.opcode == Opcode::Jalr
            && decode_16bit_spec(inst)->Ok_0.rd == Some(((inst >> 12u16) & 1) as u8),
        ((inst >> 2u16) & 0x1F) == 0 && ((inst >> 7u16) & 0x1F) == 0
            ==> decode_16bit_spec(inst)->Ok_0.opcode == Opcode::System
            && decode_16bit_spec(inst)->Ok_0.rd == Some(0u8),
        ((inst >> 2u16) & 0x1F) != 0 ==> decode_16bit_spec(inst)->Ok_0.opcode == Opcode::Op
            && decode_16bit_spec(inst)->Ok_0.funct3 == Some(Funct3::AddSub)
            && decode_16bit_spec(inst)->Ok_0.funct7 == Some(0u8) && decode_16bit_spec(inst)->Ok_0.rd
            == Some(((inst >> 7u16) & 0x1F) as u8) && decode_16bit_spec(inst)->Ok_0.rs2 == Some(
            ((inst >> 2u16) & 0x1F) as u8,
        ) && decode_16bit_spec(inst)->Ok_0.rs1 == Some(if ((inst >> 12u16) & 1) == 1 {
            ((inst >> 7u16) & 0x1F) as u8
        } else {
            0u8
        }),
{
    lemma_c_regs(inst);
    let rd = c_rd(inst);
    let rs2 = c_rs2(inst);
    let b12 = ((inst >> 12u16) & 1);
    assert(inst & 3 != 0 && inst & 3 != 1 && inst & 3 != 3);
    if rs2 == 0 && rd == 0 {
        lemma_word_layouts(0, 0, 0, 0, 0, 0, 0, inst, 0, 0);
        assert(expand_spec(inst) == Ok::<u32, DecodeError>(0x0010_0073u32));
        assert(opcode_of(0x0010_0073u32 & 0x7F) == Some(Opcode::System));
    } else if rs2 == 0 {
        let link: u8 = if b12 == 1 {
            1
        } else {
            0
        };
        let w = i_word(Opcode::Jalr, link, rd, Funct3::AddSub, 0);
        lemma_word_layouts(0, 0, rd as u32, 0, link as u32, 0x67, w, inst, 0, 0);
        assert(expand_spec(inst) == Ok::<u32, DecodeError>(w));
        assert(opcode_of(w & 0x7F) == Some(Opcode::Jalr));
    } else {
        let src: u8 = if b12 == 1 {
            rd
        } else {
            0
        };
        let w = r_word(Opcode::Op, rd, src, rs2, Funct3::AddSub, 0);
        lemma_word_layouts(0, rs2 as u32, src as u32, 0, rd as u32, 0x33, w, inst, 0, 0);
        assert(expand_spec(inst) == Ok::<u32, DecodeError>(w));
        assert(opcode_of(w & 0x7F) == Some(Opcode::Op));
    }
}

/// C.SUB, decoded and executed, writes `rd' - rs2'` modulo 2^64 to `rd'`:
/// the difference, not the sum.
pub proof fn lemma_c_sub_subtracts(
    inst: u16,
    s0: CoreState,
    s1: CoreState,
    m0: SimpleMemory,
    m1: SimpleMemory,
    r: Result<(), ExecuteError>,
)
    requires
        inst & 3 == 1,
        (inst >> 13u16) & 7 == 4,
        (inst >> 10u16) & 3 == 3,
        (inst >> 12u16) & 1 == 0,
        (inst >> 5u16) & 3 == 0,
        op_post(decode_16bit_spec(inst)->Ok_0, s0, s1, m0, m1, r),
    ensures
        r is Ok,
        s1.regs@[8 + ((inst >> 7u16) & 7) as int] as int == (s0.regs@[8
            + ((inst >> 7u16) & 7) as int]
            as int - s0.regs@[8 + ((inst >> 2u16) & 7) as int] as int) % 0x1_0000_0000_0000_0000,
{
    lemma_c_register_alu(inst);
    lemma_c_regs(inst);
}

/// Whether a word's low two bits mark a 16-bit encoding.
pub open spec fn compressed(instruction: u32) -> bool {
    instruction & 3 != 3
}

/// The compressed-instruction decoder.
#[derive(Debug, Clone, Copy)]
pub struct CompressedDecoder;

proof fn lemma_c_regs(inst: u16)
    by (bit_vector)
    ensures
        ((inst >> 7u16) & 0x7) < 8,
        ((inst >> 2u16) & 0x7) < 8,
        ((inst >> 7u16) & 0x1F) < 32,
        ((inst >> 2u16) & 0x1F) < 32,
        ((inst >> 13u16) & 7) < 8,
        ((inst >> 12u16) & 1) < 2,
        ((inst >> 10u16) & 3) < 4,
        ((inst >> 5u16) & 3) < 4,
        (inst & 3) < 4,
        ((inst >> 6u16) & 1) < 2,
        ((inst >> 5u16) & 1) < 2,
        ((inst >> 3u16) & 3) < 4,
        ((inst >> 2u16) & 1) < 2,
{
}

impl CompressedDecoder {
    /// Creates a decoder.
    pub fn new() -> (r: Self) {
        CompressedDecoder
    }

    /// Whether the low two bits of a word mark a 16-bit encoding.
    pub fn is_compressed(instruction: u32) -> (r: bool)
        ensures
            r == compressed(instruction),
    {
        (instruction & 0b11) != 0b11
    }

    /// The length in bits of the instruction a word begins: 16 or 32.
    pub fn instruction_length(instruction: u32) -> (r: u8)
        ensures
            r == (if compressed(instruction) {
                16u8
            } else {
                32u8
            }),
    {
        if Self::is_compressed(instruction) {
            16
        } else {
            32
        }
    }

    /// Builds an I-type word.
    fn build_i_type(&self, op: Opcode, rd: u8, rs1: u8, f3: Funct3, imm: u32) -> (r: u32)
        ensures
            r == i_word(op, rd, rs1, f3, imm),
    {
        ((imm & 0xFFF) << 20) | ((rs1 as u32) << 15) | (f3.bits() << 12) | ((rd as u32) << 7) | op.bits()
    }

    /// Builds an R-type word.
    fn build_r_type(&self, op: Opcode, rd: u8, rs1: u8, rs2: u8, f3: Funct3, f7: u8) -> (r: u32)
        ensures
            r == r_word(op, rd, rs1, rs2, f3, f7),
    {
        ((f7 as u32) << 25) | ((rs2 as u32) << 20) | ((rs1 as u32) << 15) | (f3.bits() << 12) | ((
        rd as u32) << 7) | op.bits()
    }

    /// Builds an S-type word.
    fn build_s_type(&self, op: Opcode, rs1: u8, rs2: u8, f3: Funct3, imm: u32) -> (r: u32)
        ensures
            r == s_word(op, rs1, rs2, f3, imm),
    {
        (((imm >> 5) & 0x7F) << 25) | ((rs2 as u32) << 20) | ((rs1 as u32) << 15) | (f3.bits() << 12)
            | ((imm & 0x1F) << 7) | op.bits()
    }

    /// Builds a B-type word.
    fn build_b_type(&self, op: Opcode, rs1: u8, rs2: u8, f3: Funct3, imm: u32) -> (r: u32)
        ensures
            r == b_word(op, rs1, rs2, f3, imm),
    {
        (((imm >> 12) & 1) << 31) | (((imm >> 5) & 0x3F) << 25) | ((rs2 as u32) << 20) | ((rs1 as u32)
            << 15) | (f3.bits() << 12) | (((imm >> 1) & 0xF) << 8) | (((imm >> 11) & 1) << 7)
            | op.bits()
    }

    /// Builds a U-type word.
    fn build_u_type(&self, op: Opcode, rd: u8, imm: u32) -> (r: u32)
        ensures
            r == u_word(op, rd, imm),
    {
        (imm & 0xFFFF_F000) | ((rd as u32) << 7) | op.bits()
    }

    /// Builds a J-type word.
    fn build_j_type(&self, op: Opcode, rd: u8, imm: u32) -> (r: u32)
        ensures
            r == j_word(op, rd, imm),
    {
        (((imm >> 20) & 1) << 31) | (((imm >> 12) & 0xFF) << 12) | (((imm >> 11) & 1) << 20) | (((imm
            >> 1) & 0x3FF) << 21) | ((rd as u32) << 7) | op.bits()
    }

    /// The sign-extended 6-bit immediate (bits 12, 6:2).
    fn extract_c_imm(&self, inst: u16) -> (r: u32)
        ensures
            r == c_imm(inst),
    {
        let imm5 = ((inst >> 12) & 1) as u32;
        let imm = (imm5 << 5) | ((inst >> 2) & 0x1F) as u32;
        if imm5 != 0 {
            imm | 0xFFFF_FFC0
        } else {
            imm
        }
    }

    /// The 6-bit shift amount, with the arithmetic-shift marker (bit 10) when `arith`.
    fn extract_c_shamt(&self, inst: u16, arith: bool) -> (r: u32)
        ensures
            r == c_shamt(inst, arith),
    {
        let s = ((((inst >> 12) & 1) as u32) << 5) | ((inst >> 2) & 0x1F) as u32;
        if arith {
            s | 0x400
        } else {
            s
        }
    }

    /// The sign-extended C.LUI immediate, in place (bits 17:12).
    fn extract_c_lui_imm(&self, inst: u16) -> (r: u32)
        ensures
            r == c_lui_imm(inst),
    {
        let b17 = ((inst >> 12) & 1) as u32;
        let imm = (b17 << 17) | ((((inst >> 2) & 0x1F) as u32) << 12);
        if b17 != 0 {
            imm | 0xFFFC_0000
        } else {
            imm
        }
    }

    /// The instruction bits `inst[lo..]` selected by `mask`, placed at bit `at`.
    fn field(&self, inst: u16, lo: u16, mask: u16, at: u32) -> (r: u32)
        requires
            lo < 16,
            at < 32,
        ensures
            r == cfield(inst, lo, mask, at),
    {
        (((inst >> lo) & mask) as u32) << at
    }

    /// The sign-extended C.J offset.
    fn extract_c_j_imm(&self, inst: u16) -> (r: u32)
        ensures
            r == c_j_imm(inst),
    {
        let v = self.field(inst, 12, 1, 11) | self.field(inst, 11, 1, 4) | self.field(inst, 9, 3, 8)
            | self.field(inst, 8, 1, 10) | self.field(inst, 7, 1, 6) | self.field(inst, 6, 1, 7)
            | self.field(inst, 3, 7, 1) | self.field(inst, 2, 1, 5);
        if (inst >> 12) & 1 != 0 {
            v | 0xFFFF_F000
        } else {
            v
        }
    }

    /// The sign-extended C.BEQZ/C.BNEZ offset.
    fn extract_c_b_imm(&self, inst: u16) -> (r: u32)
        ensures
            r == c_b_imm(inst),
    {
        let v = self.field(inst, 12, 1, 8) | self.field(inst, 10, 3, 3) | self.field(inst, 5, 3, 6)
            | self.field(inst, 3, 3, 1) | self.field(inst, 2, 1, 5);
        if (inst >> 12) & 1 != 0 {
            v | 0xFFFF_FE00
        } else {
            v
        }
    }

    /// The sign-extended C.ADDI16SP immediate.
    fn extract_c_addi16sp_imm(&self, inst: u16) -> (r: u32)
        ensures
            r == c_addi16sp_imm(inst),
    {
        let v = self.field(inst, 12, 1, 9) | self.field(inst, 6, 1, 4) | self.field(inst, 5, 1, 6)
            | self.field(inst, 3, 3, 7) | self.field(inst, 2, 1, 5);
        if (inst >> 12) & 1 != 0 {
            v | 0xFFFF_FC00
        } else {
            v
        }
    }

    /// The C.ADDI4SPN immediate.
    fn extract_c_addi4spn_imm(&self, inst: u16) -> (r: u32)
        ensures
            r == c_addi4spn_imm(inst),
    {
        self.field(inst, 11, 3, 4) | self.field(inst, 7, 0xF, 6) | self.field(inst, 6, 1, 2) | self.field(
            inst,
            5,
            1,
            3,
        )
    }

    /// The offset of C.LW/C.SW/C.FLW/C.FSW.
    fn extract_c_w_off(&self, inst: u16) -> (r: u32)
        ensures
            r == c_w_off(inst),
    {
        self.field(inst, 10, 7, 3) | self.field(inst, 6, 1, 2) | self.field(inst, 5, 1, 6)
    }

    /// The offset of C.LD/C.SD/C.FLD/C.FSD.
    fn extract_c_d_off(&self, inst: u16) -> (r: u32)
        ensures
            r == c_d_off(inst),
    {
        self.field(inst, 10, 7, 3) | self.field(inst, 5, 3, 6)
    }

    /// The C.LWSP offset.
    fn extract_c_lwsp_off(&self, inst: u16) -> (r: u32)
        ensures
            r == c_lwsp_off(inst),
    {
        self.field(inst, 12, 1, 5) | self.field(inst, 4, 7, 2) | self.field(inst, 2, 3, 6)
    }

    /// The C.LDSP offset.
    fn extract_c_ldsp_off(&self, inst: u16) -> (r: u32)
        ensures
            r == c_ldsp_off(inst),
    {
        self.field(inst, 12, 1, 5) | self.field(inst, 5, 3, 3) | self.field(inst, 2, 7, 6)
    }

    /// The C.SWSP offset.
    fn extract_c_swsp_off(&self, inst: u16) -> (r: u32)
        ensures
            r == c_swsp_off(inst),
    {
        self.field(inst, 9, 0xF, 2) | self.field(inst, 7, 3, 6)
    }

    /// The C.SDSP offset.
    fn extract_c_sdsp_off(&self, inst: u16) -> (r: u32)
        ensures
            r == c_sdsp_off(inst),
    {
        self.field(inst, 10, 7, 3) | self.field(inst, 7, 7, 6)
    }

    /// Decodes a compressed instruction through its 32-bit expansion.
    pub fn decode_16bit(&self, compressed: u16) -> (r: Result<DecodedInstruction, DecodeError>)
        ensures
            r == decode_16bit_spec(compressed),
            r matches Ok(d) ==> d.wf(),
    {
        let quadrant = compressed & 0b11;
        let r = if quadrant == 0 {
            self.decode_c0_quadrant(compressed)
        } else if quadrant == 1 {
            self.decode_c1_quadrant(compressed)
        } else if quadrant == 2 {
            self.decode_c2_quadrant(compressed)
        } else {
            Err(DecodeError::InvalidInstruction(compressed as u32))
        };
        proof {
            if let Ok(w) = expand_spec(compressed) {
                lemma_decode_wf(w);
            }
        }
        r
    }

    /// Quadrant 0: the stack-pointer add and the loads and stores.
    fn decode_c0_quadrant(&self, inst: u16) -> (r: Result<DecodedInstruction, DecodeError>)
        requires
            inst & 3 == 0,
        ensures
            r == decode_16bit_spec(inst),
    {
        proof {
            lemma_c_regs(inst);
        }
        let funct3 = (inst >> 13) & 0b111;
        if funct3 == 0 {
            self.decode_c_addi4spn(inst)
        } else if funct3 == 1 {
            self.decode_c_fld(inst)
        } else if funct3 == 2 {
            self.decode_c_lw(inst)
        } else if funct3 == 3 {
            self.decode_c_flw(inst)
        } else if funct3 == 4 {
            Err(DecodeError::ReservedInstruction)
        } else if funct3 == 5 {
            self.decode_c_fsd(inst)
        } else if funct3 == 6 {
            self.decode_c_sw(inst)
        } else {
            self.decode_c_fsw(inst)
        }
    }

    /// Quadrant 1: immediate arithmetic, register arithmetic, jumps and branches.
    fn decode_c1_quadrant(&self, inst: u16) -> (r: Result<DecodedInstruction, DecodeError>)
        requires
            inst & 3 == 1,
        ensures
            r == decode_16bit_spec(inst),
    {
        proof {
            lemma_c_regs(inst);
        }
        let funct3 = (inst >> 13) & 0b111;
        if funct3 == 0 {
            self.decode_c_addi(inst)
        } else if funct3 == 1 {
            self.decode_c_addiw(inst)
        } else if funct3 == 2 {
            self.decode_c_li(inst)
        } else if funct3 == 3 {
            self.decode_c_lui_addi16sp(inst)
        } else if funct3 == 4 {
            self.decode_c_alu(inst)
        } else if funct3 == 5 {
            self.decode_c_j(inst)
        } else if funct3 == 6 {
            self.decode_c_beqz(inst)
        } else {
            self.decode_c_bnez(inst)
        }
    }

    /// Quadrant 2: shifts, stack-relative loads and stores, moves, adds and
    /// register jumps.  funct3 1 and 3 both load a doubleword from the
    /// stack, and 5 and 7 both store one.
    fn decode_c2_quadrant(&self, inst: u16) -> (r: Result<DecodedInstruction, DecodeError>)
        requires
            inst & 3 == 2,
        ensures
            r == decode_16bit_spec(inst),
    {
        proof {
            lemma_c_regs(inst);
        }
        let funct3 = (inst >> 13) & 0b111;
        if funct3 == 0 {
            self.decode_c_slli(inst)
        } else if funct3 == 1 || funct3 == 3 {
            self.decode_c_ldsp(inst)
        } else if funct3 == 2 {
            self.decode_c_lwsp(inst)
        } else if funct3 == 4 {
            self.decode_c_mv_add(inst)
        } else if funct3 == 6 {
            self.decode_c_swsp(inst)
        } else {
            self.decode_c_sdsp(inst)
        }
    }

    /// C.ADDI4SPN: `addi rd', x2, nzuimm`; a zero immediate is reserved.
    fn decode_c_addi4spn(&self, inst: u16) -> (r: Result<DecodedInstruction, DecodeError>)
        requires
            inst & 3 == 0,
            (inst >> 13u16) & 7 == 0,
        ensures
            r == decode_16bit_spec(inst),
    {
        proof {
            lemma_c_regs(inst);
        }
        if (inst >> 5) & 0xFF == 0 {
            return Err(DecodeError::ReservedInstruction);
        }
        let imm = self.extract_c_addi4spn_imm(inst);
        let rd_prime = ((inst >> 2) & 0x7) as u8 + 8;
        let expanded = self.build_i_type(Opcode::OpImm, rd_prime, 2, Funct3::AddSub, imm);
        InstructionDecoder::new().decode(expanded)
    }

    /// C.FLD: `fld rd', uimm(rs1')`.
    fn decode_c_fld(&self, inst: u16) -> (r: Result<DecodedInstruction, DecodeError>)
        requires
            inst & 3 == 0,
            (inst >> 13u16) & 7 == 1,
        ensures
            r == decode_16bit_spec(inst),
    {
        proof {
            lemma_c_regs(inst);
        }
        let imm = self.extract_c_d_off(inst);
        let rs1_prime = ((inst >> 7) & 0x7) as u8 + 8;
        let rd_prime = ((inst >> 2) & 0x7) as u8 + 8;
        let expanded = self.build_i_type(Opcode::LoadFp, rd_prime, rs1_prime, Funct3::Sltu, imm);
        InstructionDecoder::new().decode(expanded)
    }

    /// C.LW: `lw rd', uimm(rs1')`.
    fn decode_c_lw(&self, inst: u16) -> (r: Result<DecodedInstruction, DecodeError>)
        requires
            inst & 3 == 0,
            (inst >> 13u16) & 7 == 2,
        ensures
            r == decode_16bit_spec(inst),
    {
        proof {
            lemma_c_regs(inst);
        }
        let imm = self.extract_c_w_off(inst);
        let rs1_prime = ((inst >> 7) & 0x7) as u8 + 8;
        let rd_prime = ((inst >> 2) & 0x7) as u8 + 8;
        let expanded = self.build_i_type(Opcode::Load, rd_prime, rs1_prime, Funct3::Slt, imm);
        InstructionDecoder::new().decode(expanded)
    }

    /// C.FLW: `flw rd', uimm(rs1')`.
    fn decode_c_flw(&self, inst: u16) -> (r: Result<DecodedInstruction, DecodeError>)
        requires
            inst & 3 == 0,
            (inst >> 13u16) & 7 == 3,
        ensures
            r == decode_16bit_spec(inst),
    {
        proof {
            lemma_c_regs(inst);
        }
        let imm = self.extract_c_w_off(inst);
        let rs1_prime = ((inst >> 7) & 0x7) as u8 + 8;
        let rd_prime = ((inst >> 2) & 0x7) as u8 + 8;
        let expanded = self.build_i_type(Opcode::LoadFp, rd_prime, rs1_prime, Funct3::Slt, imm);
        InstructionDecoder::new().decode(expanded)
    }

    /// C.FSD: `fsd rs2', uimm(rs1')`.
    fn decode_c_fsd(&self, inst: u16) -> (r: Result<DecodedInstruction, DecodeError>)
        requires
            inst & 3 == 0,
            (inst >> 13u16) & 7 == 5,
        ensures
            r == decode_16bit_spec(inst),
    {
        proof {
            lemma_c_regs(inst);
        }
        let imm = self.extract_c_d_off(inst);
        let rs1_prime = ((inst >> 7) & 0x7) as u8 + 8;
        let rs2_prime = ((inst >> 2) & 0x7) as u8 + 8;
        let expanded = self.build_s_type(Opcode::StoreFp, rs1_prime, rs2_prime, Funct3::Sltu, imm);
        InstructionDecoder::new().decode(expanded)
    }

    /// C.SW: `sw rs2', uimm(rs1')`.
    fn decode_c_sw(&self, inst: u16) -> (r: Result<DecodedInstruction, DecodeError>)
        requires
            inst & 3 == 0,
            (inst >> 13u16) & 7 == 6,
        ensures
            r == decode_16bit_spec(inst),
    {
        proof {
            lemma_c_regs(inst);
        }
        let imm = self.extract_c_w_off(inst);
        let rs1_prime = ((inst >> 7) & 0x7) as u8 + 8;
        let rs2_prime = ((inst >> 2) & 0x7) as u8 + 8;
        let expanded = self.build_s_type(Opcode::Store, rs1_prime, rs2_prime, Funct3::Slt, imm);
        InstructionDecoder::new().decode(expanded)
    }

    /// C.FSW: `fsw rs2', uimm(rs1')`.
    fn decode_c_fsw(&self, inst: u16) -> (r: Result<DecodedInstruction, DecodeError>)
        requires
            inst & 3 == 0,
            (inst >> 13u16) & 7 == 7,
        ensures
            r == decode_16bit_spec(inst),
    {
        proof {
            lemma_c_regs(inst);
        }
        let imm = self.extract_c_w_off(inst);
        let rs1_prime = ((inst >> 7) & 0x7) as u8 + 8;
        let rs2_prime = ((inst >> 2) & 0x7) as u8 + 8;
        let expanded = self.build_s_type(Opcode::StoreFp, rs1_prime, rs2_prime, Funct3::Slt, imm);
        InstructionDecoder::new().decode(expanded)
    }

    /// C.ADDI: `addi rd, rd, imm`; rd = x0 is reserved.
    fn decode_c_addi(&self, inst: u16) -> (r: Result<DecodedInstruction, DecodeError>)
        requires
            inst & 3 == 1,
            (inst >> 13u16) & 7 == 0,
        ensures
            r == decode_16bit_spec(inst),
    {
        proof {
            lemma_c_regs(inst);
        }
        let rd = ((inst >> 7) & 0x1F) as u8;
        if rd == 0 {
            return Err(DecodeError::ReservedInstruction);
        }
        let expanded = self.build_i_type(Opcode::OpImm, rd, rd, Funct3::AddSub, self.extract_c_imm(inst));
        InstructionDecoder::new().decode(expanded)
    }

    /// C.ADDIW: `addiw rd, rd, imm`; rd = x0 is reserved.
    fn decode_c_addiw(&self, inst: u16) -> (r: Result<DecodedInstruction, DecodeError>)
        requires
            inst & 3 == 1,
            (inst >> 13u16) & 7 == 1,
        ensures
            r == decode_16bit_spec(inst),
    {
        proof {
            lemma_c_regs(inst);
        }
        let rd = ((inst >> 7) & 0x1F) as u8;
        if rd == 0 {
            return Err(DecodeError::ReservedInstruction);
        }
        let expanded = self.build_i_type(Opcode::OpImm32, rd, rd, Funct3::AddSub, self.extract_c_imm(inst));
        InstructionDecoder::new().decode(expanded)
    }

    /// C.LI: `addi rd, x0, imm`; rd = x0 is reserved.
    fn decode_c_li(&self, inst: u16) -> (r: Result<DecodedInstruction, DecodeError>)
        requires
            inst & 3 == 1,
            (inst >> 13u16) & 7 == 2,
        ensures
            r == decode_16bit_spec(inst),
    {
        proof {
            lemma_c_regs(inst);
        }
        let rd = ((inst >> 7) & 0x1F) as u8;
        if rd == 0 {
            return Err(DecodeError::ReservedInstruction);
        }
        let expanded = self.build_i_type(Opcode::OpImm, rd, 0, Funct3::AddSub, self.extract_c_imm(inst));
        InstructionDecoder::new().decode(expanded)
    }

    /// C.LUI (`lui rd, nzimm`) or, with rd = x2, C.ADDI16SP
    /// (`addi x2, x2, nzimm`); rd = x0 or a zero immediate is reserved.
    fn decode_c_lui_addi16sp(&self, inst: u16) -> (r: Result<DecodedInstruction, DecodeError>)
        requires
            inst & 3 == 1,
            (inst >> 13u16) & 7 == 3,
        ensures
            r == decode_16bit_spec(inst),
    {
        proof {
            lemma_c_regs(inst);
        }
        let rd = ((inst >> 7) & 0x1F) as u8;
        if rd == 0 {
            return Err(DecodeError::ReservedInstruction);
        }
        let expanded = if rd == 2 {
            let nzimm = self.extract_c_addi16sp_imm(inst);
            if nzimm == 0 {
                return Err(DecodeError::ReservedInstruction);
            }
            self.build_i_type(Opcode::OpImm, 2, 2, Funct3::AddSub, nzimm)
        } else {
            let nzimm = self.extract_c_lui_imm(inst);
            if nzimm == 0 {
                return Err(DecodeError::ReservedInstruction);
            }
            self.build_u_type(Opcode::Lui, rd, nzimm)
        };
        InstructionDecoder::new().decode(expanded)
    }

    /// The quadrant-1 arithmetic group: C.SRLI, C.SRAI, C.ANDI, and the
    /// register forms C.SUB, C.XOR, C.OR, C.AND, C.SUBW, C.ADDW; the other
    /// register encodings are reserved.
    fn decode_c_alu(&self, inst: u16) -> (r: Result<DecodedInstruction, DecodeError>)
        requires
            inst & 3 == 1,
            (inst >> 13u16) & 7 == 4,
        ensures
            r == decode_16bit_spec(inst),
    {
        proof {
            lemma_c_regs(inst);
        }
        let op_type = (inst >> 10) & 0b11;
        let rs2_prime = ((inst >> 2) & 0x7) as u8 + 8;
        let rd_prime = ((inst >> 7) & 0x7) as u8 + 8;
        let expanded = if op_type == 0 {
            let imm = self.extract_c_shamt(inst, false);
            self.build_i_type(Opcode::OpImm, rd_prime, rd_prime, Funct3::SrlSra, imm)
        } else if op_type == 1 {
            let imm = self.extract_c_shamt(inst, true);
            self.build_i_type(Opcode::OpImm, rd_prime, rd_prime, Funct3::SrlSra, imm)
        } else if op_type == 2 {
            let imm = self.extract_c_imm(inst);
            self.build_i_type(Opcode::OpImm, rd_prime, rd_prime, Funct3::And, imm)
        } else {
            let funct2 = (inst >> 5) & 0b11;
            let funct1 = (inst >> 12) & 1;
            if funct1 == 0 && funct2 == 0 {
                self.build_r_type(Opcode::Op, rd_prime, rd_prime, rs2_prime, Funct3::AddSub, 0x20)
            } else if funct1 == 0 && funct2 == 1 {
                self.build_r_type(Opcode::Op, rd_prime, rd_prime, rs2_prime, Funct3::Xor, 0)
            } else if funct1 == 0 && funct2 == 2 {
                self.build_r_type(Opcode::Op, rd_prime, rd_prime, rs2_prime, Funct3::Or, 0)
            } else if funct1 == 0 && funct2 == 3 {
                self.build_r_type(Opcode::Op, rd_prime, rd_prime, rs2_prime, Funct3::And, 0)
            } else if funct1 == 1 && funct2 == 0 {
                self.build_r_type(Opcode::Op32, rd_prime, rd_prime, rs2_prime, Funct3::AddSub, 0x20)
            } else if funct1 == 1 && funct2 == 1 {
                self.build_r_type(Opcode::Op32, rd_prime, rd_prime, rs2_prime, Funct3::AddSub, 0)
            } else {
                return Err(DecodeError::ReservedInstruction);
            }
        };
        InstructionDecoder::new().decode(expanded)
    }

    /// C.J: `jal x0, offset`.
    fn decode_c_j(&self, inst: u16) -> (r: Result<DecodedInstruction, DecodeError>)
        requires
            inst & 3 == 1,
            (inst >> 13u16) & 7 == 5,
        ensures
            r == decode_16bit_spec(inst),
    {
        let expanded = self.build_j_type(Opcode::Jal, 0, self.extract_c_j_imm(inst));
        InstructionDecoder::new().decode(expanded)
    }

    /// C.BEQZ: `beq rs1', x0, offset`.
    fn decode_c_beqz(&self, inst: u16) -> (r: Result<DecodedInstruction, DecodeError>)
        requires
            inst & 3 == 1,
            (inst >> 13u16) & 7 == 6,
        ensures
            r == decode_16bit_spec(inst),
    {
        proof {
            lemma_c_regs(inst);
        }
        let rs1_prime = ((inst >> 7) & 0x7) as u8 + 8;
        let expanded = self.build_b_type(Opcode::Branch, rs1_prime, 0, Funct3::AddSub, self.extract_c_b_imm(inst));
        InstructionDecoder::new().decode(expanded)
    }

    /// C.BNEZ: `bne rs1', x0, offset`.
    fn decode_c_bnez(&self, inst: u16) -> (r: Result<DecodedInstruction, DecodeError>)
        requires
            inst & 3 == 1,
            (inst >> 13u16) & 7 == 7,
        ensures
            r == decode_16bit_spec(inst),
    {
        proof {
            lemma_c_regs(inst);
        }
        let rs1_prime = ((inst >> 7) & 0x7) as u8 + 8;
        let expanded = self.build_b_type(Opcode::Branch, rs1_prime, 0, Funct3::Sll, self.extract_c_b_imm(inst));
        InstructionDecoder::new().decode(expanded)
    }

    /// C.SLLI: `slli rd, rd, shamt`; rd = x0 is reserved.
    fn decode_c_slli(&self, inst: u16) -> (r: Result<DecodedInstruction, DecodeError>)
        requires
            inst & 3 == 2,
            (inst >> 13u16) & 7 == 0,
        ensures
            r == decode_16bit_spec(inst),
    {
        proof {
            lemma_c_regs(inst);
        }
        let rd = ((inst >> 7) & 0x1F) as u8;
        if rd == 0 {
            return Err(DecodeError::ReservedInstruction);
        }
        let expanded = self.build_i_type(Opcode::OpImm, rd, rd, Funct3::Sll, self.extract_c_shamt(inst, false));
        InstructionDecoder::new().decode(expanded)
    }

    /// C.LWSP: `lw rd, uimm(x2)`; rd = x0 is reserved.
    fn decode_c_lwsp(&self, inst: u16) -> (r: Result<DecodedInstruction, DecodeError>)
        requires
            inst & 3 == 2,
            (inst >> 13u16) & 7 == 2,
        ensures
            r == decode_16bit_spec(inst),
    {
        proof {
            lemma_c_regs(inst);
        }
        let rd = ((inst >> 7) & 0x1F) as u8;
        if rd == 0 {
            return Err(DecodeError::ReservedInstruction);
        }
        let imm = self.extract_c_lwsp_off(inst);
        let expanded = self.build_i_type(Opcode::Load, rd, 2, Funct3::Slt, imm);
        InstructionDecoder::new().decode(expanded)
    }

    /// C.LDSP: `ld rd, uimm(x2)`; rd = x0 is reserved.
    fn decode_c_ldsp(&self, inst: u16) -> (r: Result<DecodedInstruction, DecodeError>)
        requires
            inst & 3 == 2,
            (inst >> 13u16) & 7 == 1 || (inst >> 13u16) & 7 == 3,
        ensures
            r == decode_16bit_spec(inst),
    {
        proof {
            lemma_c_regs(inst);
        }
        let rd = ((inst >> 7) & 0x1F) as u8;
        if rd == 0 {
            return Err(DecodeError::ReservedInstruction);
        }
        let imm = self.extract_c_ldsp_off(inst);
        let expanded = self.build_i_type(Opcode::Load, rd, 2, Funct3::Sltu, imm);
        InstructionDecoder::new().decode(expanded)
    }

    /// Bit 12 clear: C.JR (`jalr x0, 0(rs1)`, rs1 = x0 reserved) or C.MV
    /// (`add rd, x0, rs2`); bit 12 set: C.EBREAK, C.JALR (`jalr x1, 0(rs1)`)
    /// or C.ADD (`add rd, rd, rs2`).
    fn decode_c_mv_add(&self, inst: u16) -> (r: Result<DecodedInstruction, DecodeError>)
        requires
            inst & 3 == 2,
            (inst >> 13u16) & 7 == 4,
        ensures
            r == decode_16bit_spec(inst),
    {
        proof {
            lemma_c_regs(inst);
        }
        let rd = ((inst >> 7) & 0x1F) as u8;
        let rs2 = ((inst >> 2) & 0x1F) as u8;
        let expanded = if (inst >> 12) & 1 == 0 {
            if rs2 == 0 {
                if rd == 0 {
                    return Err(DecodeError::ReservedInstruction);
                }
                self.build_i_type(Opcode::Jalr, 0, rd, Funct3::AddSub, 0)
            } else {
                self.build_r_type(Opcode::Op, rd, 0, rs2, Funct3::AddSub, 0)
            }
        } else if rs2 == 0 && rd == 0 {
            0x0010_0073u32
        } else if rs2 == 0 {
            self.build_i_type(Opcode::Jalr, 1, rd, Funct3::AddSub, 0)
        } else {
            self.build_r_type(Opcode::Op, rd, rd, rs2, Funct3::AddSub, 0)
        };
        InstructionDecoder::new().decode(expanded)
    }

    /// C.SWSP: `sw rs2, uimm(x2)`.
    fn decode_c_swsp(&self, inst: u16) -> (r: Result<DecodedInstruction, DecodeError>)
        requires
            inst & 3 == 2,
            (inst >> 13u16) & 7 == 6,
        ensures
            r == decode_16bit_spec(inst),
    {
        proof {
            lemma_c_regs(inst);
        }
        let rs2 = ((inst >> 2) & 0x1F) as u8;
        let imm = self.extract_c_swsp_off(inst);
        let expanded = self.build_s_type(Opcode::Store, 2, rs2, Funct3::Slt, imm);
        InstructionDecoder::new().decode(expanded)
    }

    /// C.SDSP: `sd rs2, uimm(x2)`.
    fn decode_c_sdsp(&self, inst: u16) -> (r: Result<DecodedInstruction, DecodeError>)
        requires
            inst & 3 == 2,
            (inst >> 13u16) & 7 == 5 || (inst >> 13u16) & 7 == 7,
        ensures
            r == decode_16bit_spec(inst),
    {
        proof {
            lemma_c_regs(inst);
        }
        let rs2 = ((inst >> 2) & 0x1F) as u8;
        let imm = self.extract_c_sdsp_off(inst);
        let expanded = self.build_s_type(Opcode::Store, 2, rs2, Funct3::Sltu, imm);
        InstructionDecoder::new().decode(expanded)
    }
}

impl Default for CompressedDecoder {
    fn default() -> (r: Self) {
        Self::new()
    }
}

} // verus!
