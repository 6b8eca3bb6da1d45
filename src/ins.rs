use vstd::prelude::*;

use crate::irq::Interrupt;

verus! {

/// A decoded instruction in one of the six base formats. Compressed
/// instructions are expanded into the equivalent 32-bit format.
#[allow(inconsistent_fields)]
#[derive(Clone, Copy, Debug, PartialEq, Eq, Structural)]
pub enum InstructionFormat {
    R { opcode: u8, rd: u8, funct3: u8, rs1: u8, rs2: u8, funct7: u8 },
    I { opcode: u8, rd: u8, funct3: u8, rs1: u8, imm: i16 },
    S { opcode: u8, funct3: u8, rs1: u8, rs2: u8, imm: i16 },
    B { opcode: u8, funct3: u8, rs1: u8, rs2: u8, imm: i16 },
    U { opcode: u8, rd: u8, imm: i32 },
    J { opcode: u8, rd: u8, imm: i32 },
}

/// A raw instruction parcel: a full 32-bit word or a compressed half word.
#[derive(Clone, Copy, Debug, PartialEq, Eq, Structural)]
pub enum Instruction {
    IRV32(u32),
    CRV32(u16),
}

pub const OP: u8 = 0b0110011;
pub const OP_32: u8 = 0b0111011;
pub const AMO: u8 = 0b0101111;
pub const OP_IMM: u8 = 0b0010011;
pub const OP_IMM_32: u8 = 0b0011011;
pub const LOAD: u8 = 0b0000011;
pub const JALR: u8 = 0b1100111;
pub const SYSTEM: u8 = 0b1110011;
pub const MISC_MEM: u8 = 0b0001111;
pub const STORE: u8 = 0b0100011;
pub const BRANCH: u8 = 0b1100011;
pub const JAL: u8 = 0b1101111;
pub const LUI: u8 = 0b0110111;
pub const AUIPC: u8 = 0b0010111;

/// `raw` read as a two's-complement number whose sign bit has weight `half`.
pub open spec fn sext(raw: u32, half: u32) -> int {
    if raw >= half {
        raw - 2 * half
    } else {
        raw as int
    }
}

fn sext_exec(raw: u32, half: u32) -> (r: i64)
    ensures
        r == sext(raw, half),
{
    if raw >= half {
        raw as i64 - 2 * (half as i64)
    } else {
        raw as i64
    }
}

pub open spec fn opcode_of(w: u32) -> u8 {
    (w & 0x7f) as u8
}

pub open spec fn rd_of(w: u32) -> u8 {
    ((w >> 7u32) & 0x1f) as u8
}

pub open spec fn funct3_of(w: u32) -> u8 {
    ((w >> 12u32) & 0x7) as u8
}

pub open spec fn rs1_of(w: u32) -> u8 {
    ((w >> 15u32) & 0x1f) as u8
}

pub open spec fn rs2_of(w: u32) -> u8 {
    ((w >> 20u32) & 0x1f) as u8
}

pub open spec fn funct7_of(w: u32) -> u8 {
    (w >> 25u32) as u8
}

/// imm[11:0] = inst[31:20]
pub open spec fn imm_i_raw(w: u32) -> u32 {
    w >> 20u32
}

/// imm[11:5] = inst[31:25], imm[4:0] = inst[11:7]
pub open spec fn imm_s_raw(w: u32) -> u32 {
    ((w >> 25u32) << 5u32) | ((w >> 7u32) & 0x1f)
}

/// imm[12|10:5] = inst[31|30:25], imm[4:1|11] = inst[11:8|7]
pub open spec fn imm_b_raw(w: u32) -> u32 {
    (((w >> 31u32) & 1) << 12u32) | (((w >> 25u32) & 0x3f) << 5u32) | (((w >> 8u32) & 0xf)
        << 1u32) | (((w >> 7u32) & 1) << 11u32)
}

/// imm[20|10:1|11|19:12] = inst[31|30:21|20|19:12]
pub open spec fn imm_j_raw(w: u32) -> u32 {
    (((w >> 31u32) & 1) << 20u32) | (((w >> 21u32) & 0x3ff) << 1u32) | (((w >> 20u32) & 1)
        << 11u32) | (((w >> 12u32) & 0xff) << 12u32)
}

/// imm[31:12] = inst[31:12]
pub open spec fn imm_u_raw(w: u32) -> u32 {
    w >> 12u32
}

/// Whether a decoded 32-bit format uses a funct3, funct7, shift or system
/// field that the implemented extensions reserve.
pub open spec fn reserved(f: InstructionFormat) -> bool {
    match f {
        InstructionFormat::R { opcode, funct3, funct7, .. } => if opcode == OP {
            !(funct7 == 0 || (funct7 == 0x20 && (funct3 == 0 || funct3 == 5)))
        } else if opcode == OP_32 {
            !((funct7 == 0 && (funct3 == 0 || funct3 == 1 || funct3 == 5)) || (funct7 == 0x20 && (
            funct3 == 0 || funct3 == 5)))
        } else {
            let f5 = funct7 >> 2u8;
            !((funct3 == 2 || funct3 == 3) && (f5 == 0x00 || f5 == 0x01 || f5 == 0x04 || f5 == 0x08
                || f5 == 0x0C || f5 == 0x10 || f5 == 0x14 || f5 == 0x18 || f5 == 0x1C))
        },
        InstructionFormat::I { opcode, funct3, imm, .. } => if opcode == OP_IMM {
            (funct3 == 1 && (imm as u16) >> 6u16 != 0) || (funct3 == 5 && (imm as u16) >> 6u16 != 0
                && (imm as u16) >> 6u16 != 0x10)
        } else if opcode == OP_IMM_32 {
            !(funct3 == 0 || (funct3 == 1 && (imm as u16) >> 5u16 == 0) || (funct3 == 5 && ((imm as u16)
                >> 5u16 == 0 || (imm as u16) >> 5u16 == 0x20)))
        } else if opcode == LOAD {
            funct3 == 7
        } else if opcode == JALR {
            funct3 != 0
        } else if opcode == MISC_MEM {
            funct3 > 1
        } else if opcode == SYSTEM {
            funct3 == 4 || (funct3 == 0 && imm != 0 && imm != 1 && imm != 0x102 && imm != 0x105 && imm
                != 0x302 && (imm as u16) >> 5u16 != 0b0001001)
        } else {
            false
        },
        InstructionFormat::S { funct3, .. } => funct3 > 3,
        InstructionFormat::B { funct3, .. } => funct3 == 2 || funct3 == 3,
        _ => false,
    }
}

fn reserved_exec(f: &InstructionFormat) -> (r: bool)
    ensures
        r == reserved(*f),
{
    match *f {
        InstructionFormat::R { opcode, funct3, funct7, .. } => if opcode == OP {
            !(funct7 == 0 || (funct7 == 0x20 && (funct3 == 0 || funct3 == 5)))
        } else if opcode == OP_32 {
            !((funct7 == 0 && (funct3 == 0 || funct3 == 1 || funct3 == 5)) || (funct7 == 0x20 && (
            funct3 == 0 || funct3 == 5)))
        } else {
            let f5 = funct7 >> 2u8;
            !((funct3 == 2 || funct3 == 3) && (f5 == 0x00 || f5 == 0x01 || f5 == 0x04 || f5 == 0x08
                || f5 == 0x0C || f5 == 0x10 || f5 == 0x14 || f5 == 0x18 || f5 == 0x1C))
        },
        InstructionFormat::I { opcode, funct3, imm, .. } => if opcode == OP_IMM {
            (funct3 == 1 && (imm as u16) >> 6u16 != 0) || (funct3 == 5 && (imm as u16) >> 6u16 != 0
                && (imm as u16) >> 6u16 != 0x10)
        } else if opcode == OP_IMM_32 {
            !(funct3 == 0 || (funct3 == 1 && (imm as u16) >> 5u16 == 0) || (funct3 == 5 && ((imm as u16)
                >> 5u16 == 0 || (imm as u16) >> 5u16 == 0x20)))
        } else if opcode == LOAD {
            funct3 == 7
        } else if opcode == JALR {
            funct3 != 0
        } else if opcode == MISC_MEM {
            funct3 > 1
        } else if opcode == SYSTEM {
            funct3 == 4 || (funct3 == 0 && imm != 0 && imm != 1 && imm != 0x102 && imm != 0x105 && imm
                != 0x302 && (imm as u16) >> 5u16 != 0b0001001)
        } else {
            false
        },
        InstructionFormat::S { funct3, .. } => funct3 > 3,
        InstructionFormat::B { funct3, .. } => funct3 == 2 || funct3 == 3,
        _ => false,
    }
}

/// The decoding of a 32-bit instruction word: the fields by major opcode,
/// refused where the opcode is unknown or a field is reserved.
pub open spec fn decode_32_spec(w: u32) -> Option<InstructionFormat> {
    match decode_32_fields(w) {
        Some(f) => if reserved(f) {
            None
        } else {
            Some(f)
        },
        None => None,
    }
}

/// The fields of a 32-bit instruction word, by major opcode.
pub open spec fn decode_32_fields(w: u32) -> Option<InstructionFormat> {
    let opcode = opcode_of(w);
    if opcode == OP || opcode == OP_32 || opcode == AMO {
        Some(
            InstructionFormat::R {
                opcode,
                rd: rd_of(w),
                funct3: funct3_of(w),
                rs1: rs1_of(w),
                rs2: rs2_of(w),
                funct7: funct7_of(w),
            },
        )
    } else if opcode == OP_IMM || opcode == OP_IMM_32 || opcode == LOAD || opcode == JALR
        || opcode == SYSTEM || opcode == MISC_MEM {
        Some(
            InstructionFormat::I {
                opcode,
                rd: rd_of(w),
                funct3: funct3_of(w),
                rs1: rs1_of(w),
                imm: sext(imm_i_raw(w), 0x800) as i16,
            },
        )
    } else if opcode == STORE {
        Some(
            InstructionFormat::S {
                opcode,
                funct3: funct3_of(w),
                rs1: rs1_of(w),
                rs2: rs2_of(w),
                imm: sext(imm_s_raw(w), 0x800) as i16,
            },
        )
    } else if opcode == BRANCH {
        Some(
            InstructionFormat::B {
                opcode,
                funct3: funct3_of(w),
                rs1: rs1_of(w),
                rs2: rs2_of(w),
                imm: sext(imm_b_raw(w), 0x1000) as i16,
            },
        )
    } else if opcode == JAL {
        Some(InstructionFormat::J { opcode, rd: rd_of(w), imm: sext(imm_j_raw(w), 0x10_0000) as i32 })
    } else if opcode == LUI || opcode == AUIPC {
        Some(InstructionFormat::U { opcode, rd: rd_of(w), imm: sext(imm_u_raw(w), 0x8_0000) as i32 })
    } else {
        None
    }
}

// Fields of a compressed parcel.
pub open spec fn cbits(w: u16, lo: u32, mask: u32) -> u32 {
    ((w as u32) >> lo) & mask
}

/// A register field of three bits names one of x8..x15.
pub open spec fn creg(w: u16, lo: u32) -> u8 {
    (cbits(w, lo, 0x7) + 8) as u8
}

/// nzuimm[5:4|9:6|2|3] = inst[12:11|10:7|6|5]
pub open spec fn ciw_imm(w: u16) -> u32 {
    (cbits(w, 11, 0x3) << 4u32) | (cbits(w, 7, 0xf) << 6u32) | (cbits(w, 6, 1) << 2u32) | (
    cbits(w, 5, 1) << 3u32)
}

/// uimm[5:3] = inst[12:10], uimm[2|6] = inst[6|5]
pub open spec fn cl_imm(w: u16) -> u32 {
    (cbits(w, 10, 0x7) << 3u32) | (cbits(w, 6, 1) << 2u32) | (cbits(w, 5, 1) << 6u32)
}

/// imm[5] = inst[12], imm[4:0] = inst[6:2]
pub open spec fn ci_imm(w: u16) -> u32 {
    (cbits(w, 12, 1) << 5u32) | cbits(w, 2, 0x1f)
}

/// nzimm[9] = inst[12], nzimm[4|6|8:7|5] = inst[6|5|4:3|2]
pub open spec fn addi16sp_imm(w: u16) -> u32 {
    (cbits(w, 12, 1) << 9u32) | (cbits(w, 6, 1) << 4u32) | (cbits(w, 5, 1) << 6u32) | (cbits(
        w,
        3,
        0x3,
    ) << 7u32) | (cbits(w, 2, 1) << 5u32)
}

/// offset[11|4|9:8|10|6|7|3:1|5] = inst[12|11|10:9|8|7|6|5:3|2]
pub open spec fn cj_imm(w: u16) -> u32 {
    (cbits(w, 12, 1) << 11u32) | (cbits(w, 11, 1) << 4u32) | (cbits(w, 9, 0x3) << 8u32) | (
    cbits(w, 8, 1) << 10u32) | (cbits(w, 7, 1) << 6u32) | (cbits(w, 6, 1) << 7u32) | (cbits(
        w,
        3,
        0x7,
    ) << 1u32) | (cbits(w, 2, 1) << 5u32)
}

/// offset[8|4:3] = inst[12|11:10], offset[7:6|2:1|5] = inst[6:5|4:3|2]
pub open spec fn cb_imm(w: u16) -> u32 {
    (cbits(w, 12, 1) << 8u32) | (cbits(w, 10, 0x3) << 3u32) | (cbits(w, 5, 0x3) << 6u32) | (
    cbits(w, 3, 0x3) << 1u32) | (cbits(w, 2, 1) << 5u32)
}

/// uimm[5] = inst[12], uimm[4:2|7:6] = inst[6:4|3:2]
pub open spec fn lwsp_imm(w: u16) -> u32 {
    (cbits(w, 12, 1) << 5u32) | (cbits(w, 4, 0x7) << 2u32) | (cbits(w, 2, 0x3) << 6u32)
}

/// uimm[5:2|7:6] = inst[12:9|8:7]
pub open spec fn swsp_imm(w: u16) -> u32 {
    (cbits(w, 9, 0xf) << 2u32) | (cbits(w, 7, 0x3) << 6u32)
}

/// The expansion of a compressed parcel into its 32-bit equivalent.
pub open spec fn decode_16_spec(w: u16) -> Option<InstructionFormat> {
    let quadrant = cbits(w, 0, 0x3);
    let funct3 = cbits(w, 13, 0x7);
    let rd = cbits(w, 7, 0x1f) as u8;
    let rs2 = cbits(w, 2, 0x1f) as u8;
    if quadrant == 0 {
        if funct3 == 0 && ciw_imm(w) != 0 {
            // c.addi4spn
            Some(InstructionFormat::I { opcode: OP_IMM, rd: creg(w, 2), funct3: 0, rs1: 2, imm: ciw_imm(w) as i16 })
        } else if funct3 == 2 {
            // c.lw
            Some(InstructionFormat::I { opcode: LOAD, rd: creg(w, 2), funct3: 2, rs1: creg(w, 7), imm: cl_imm(w) as i16 })
        } else if funct3 == 6 {
            // c.sw
            Some(InstructionFormat::S { opcode: STORE, funct3: 2, rs1: creg(w, 7), rs2: creg(w, 2), imm: cl_imm(w) as i16 })
        } else {
            None
        }
    } else if quadrant == 1 {
        if funct3 == 0 {
            // c.nop, c.addi
            Some(InstructionFormat::I { opcode: OP_IMM, rd, funct3: 0, rs1: rd, imm: sext(ci_imm(w), 32) as i16 })
        } else if funct3 == 1 || funct3 == 5 {
            // c.jal, c.j
            Some(InstructionFormat::J { opcode: JAL, rd: if funct3 == 1 { 1u8 } else { 0u8 }, imm: sext(cj_imm(w), 0x800) as i32 })
        } else if funct3 == 2 {
            // c.li
            Some(InstructionFormat::I { opcode: OP_IMM, rd, funct3: 0, rs1: 0, imm: sext(ci_imm(w), 32) as i16 })
        } else if funct3 == 3 && rd == 2 {
            // c.addi16sp
            if addi16sp_imm(w) == 0 {
                None
            } else {
                Some(InstructionFormat::I { opcode: OP_IMM, rd: 2, funct3: 0, rs1: 2, imm: sext(addi16sp_imm(w), 0x200) as i16 })
            }
        } else if funct3 == 3 {
            // c.lui
            if ci_imm(w) == 0 {
                None
            } else {
                Some(InstructionFormat::U { opcode: LUI, rd, imm: sext(ci_imm(w), 32) as i32 })
            }
        } else if funct3 == 4 {
            let funct2 = cbits(w, 10, 0x3);
            let r = creg(w, 7);
            if funct2 == 0 {
                // c.srli
                Some(InstructionFormat::I { opcode: OP_IMM, rd: r, funct3: 5, rs1: r, imm: ci_imm(w) as i16 })
            } else if funct2 == 1 {
                // c.srai
                Some(InstructionFormat::I { opcode: OP_IMM, rd: r, funct3: 5, rs1: r, imm: (ci_imm(w) | 0x400) as i16 })
            } else if funct2 == 2 {
                // c.andi
                Some(InstructionFormat::I { opcode: OP_IMM, rd: r, funct3: 7, rs1: r, imm: sext(ci_imm(w), 32) as i16 })
            } else if cbits(w, 12, 1) == 0 {
                // c.sub, c.xor, c.or, c.and
                let op = cbits(w, 5, 0x3);
                Some(InstructionFormat::R {
                    opcode: OP,
                    rd: r,
                    funct3: if op == 0 { 0u8 } else if op == 1 { 4u8 } else if op == 2 { 6u8 } else { 7u8 },
                    rs1: r,
                    rs2: creg(w, 2),
                    funct7: if op == 0 { 0x20u8 } else { 0u8 },
                })
            } else {
                None
            }
        } else {
            // c.beqz, c.bnez
            Some(InstructionFormat::B { opcode: BRANCH, funct3: (funct3 - 6) as u8, rs1: creg(w, 7), rs2: 0, imm: sext(cb_imm(w), 0x100) as i16 })
        }
    } else if quadrant == 2 {
        if funct3 == 0 {
            // c.slli
            Some(InstructionFormat::I { opcode: OP_IMM, rd, funct3: 1, rs1: rd, imm: ci_imm(w) as i16 })
        } else if funct3 == 2 {
            // c.lwsp
            Some(InstructionFormat::I { opcode: LOAD, rd, funct3: 2, rs1: 2, imm: lwsp_imm(w) as i16 })
        } else if funct3 == 4 && cbits(w, 12, 1) == 0 {
            if rs2 == 0 {
                // c.jr
                Some(InstructionFormat::I { opcode: JALR, rd: 0, funct3: 0, rs1: rd, imm: 0 })
            } else {
                // c.mv
                Some(InstructionFormat::I { opcode: OP_IMM, rd, funct3: 0, rs1: rs2, imm: 0 })
            }
        } else if funct3 == 4 {
            if rd == 0 && rs2 == 0 {
                // c.ebreak
                Some(InstructionFormat::I { opcode: SYSTEM, rd: 0, funct3: 0, rs1: 0, imm: 1 })
            } else if rs2 == 0 {
                // c.jalr
                Some(InstructionFormat::I { opcode: JALR, rd: 1, funct3: 0, rs1: rd, imm: 0 })
            } else {
                // c.add
                Some(InstructionFormat::R { opcode: OP, rd, funct3: 0, rs1: rd, rs2, funct7: 0 })
            }
        } else if funct3 == 6 {
            // c.swsp
            Some(InstructionFormat::S { opcode: STORE, funct3: 2, rs1: 2, rs2, imm: swsp_imm(w) as i16 })
        } else {
            None
        }
    } else {
        None
    }
}

/// The decoding of a parcel of either width.
pub open spec fn decode_spec(ins: Instruction) -> Option<InstructionFormat> {
    match ins {
        Instruction::IRV32(w) => decode_32_spec(w),
        Instruction::CRV32(h) => decode_16_spec(h),
    }
}

fn cbits_exec(w: u16, lo: u32, mask: u32) -> (r: u32)
    requires
        lo < 16,
    ensures
        r == cbits(w, lo, mask),
{
    ((w as u32) >> lo) & mask
}

fn creg_exec(w: u16, lo: u32) -> (r: u8)
    requires
        lo < 16,
    ensures
        r == creg(w, lo),
{
    let b = cbits_exec(w, lo, 0x7);
    assert(b <= 7) by (bit_vector)
        requires
            b == ((w as u32) >> lo) & 0x7,
    ;
    (b + 8) as u8
}

/// The low bits of a two's-complement value, for a field of `modulus` values.
pub open spec fn ubits(v: int, modulus: int) -> u32 {
    (if v < 0 { v + modulus } else { v }) as u32
}

fn ubits_exec(v: i32, modulus: i32) -> (r: u32)
    requires
        0 < modulus <= 0x20_0000,
        -modulus <= v < modulus,
    ensures
        r == ubits(v as int, modulus as int),
{
    if v < 0 {
        (v + modulus) as u32
    } else {
        v as u32
    }
}

/// The formats whose fields fit an encoding: register numbers below 32, the
/// opcode of the format's class, an immediate in the range and with the
/// alignment that the format can carry.
pub open spec fn encodable(f: InstructionFormat) -> bool {
    !reserved(f) && match f {
        InstructionFormat::R { opcode, rd, funct3, rs1, rs2, funct7 } => (opcode == OP || opcode
            == OP_32 || opcode == AMO) && rd < 32 && funct3 < 8 && rs1 < 32 && rs2 < 32 && funct7
            < 128,
        InstructionFormat::I { opcode, rd, funct3, rs1, imm } => (opcode == OP_IMM || opcode
            == OP_IMM_32 || opcode == LOAD || opcode == JALR || opcode == SYSTEM || opcode
            == MISC_MEM) && rd < 32 && funct3 < 8 && rs1 < 32 && -2048 <= imm < 2048,
        InstructionFormat::S { opcode, funct3, rs1, rs2, imm } => opcode == STORE && funct3 < 8
            && rs1 < 32 && rs2 < 32 && -2048 <= imm < 2048,
        InstructionFormat::B { opcode, funct3, rs1, rs2, imm } => opcode == BRANCH && funct3 < 8
            && rs1 < 32 && rs2 < 32 && -4096 <= imm < 4096 && imm % 2 == 0,
        InstructionFormat::U { opcode, rd, imm } => (opcode == LUI || opcode == AUIPC) && rd < 32
            && -0x8_0000 <= imm < 0x8_0000,
        InstructionFormat::J { opcode, rd, imm } => opcode == JAL && rd < 32 && -0x10_0000 <= imm
            < 0x10_0000 && imm % 2 == 0,
    }
}

pub open spec fn encode_r(op: u32, rd: u32, f3: u32, rs1: u32, rs2: u32, f7: u32) -> u32 {
    op | (rd << 7u32) | (f3 << 12u32) | (rs1 << 15u32) | (rs2 << 20u32) | (f7 << 25u32)
}

pub open spec fn encode_i(op: u32, rd: u32, f3: u32, rs1: u32, u: u32) -> u32 {
    op | (rd << 7u32) | (f3 << 12u32) | (rs1 << 15u32) | (u << 20u32)
}

pub open spec fn encode_s(op: u32, f3: u32, rs1: u32, rs2: u32, u: u32) -> u32 {
    op | ((u & 0x1f) << 7u32) | (f3 << 12u32) | (rs1 << 15u32) | (rs2 << 20u32) | ((u >> 5u32)
        << 25u32)
}

pub open spec fn encode_b(op: u32, f3: u32, rs1: u32, rs2: u32, u: u32) -> u32 {
    op | (((u >> 11u32) & 1) << 7u32) | (((u >> 1u32) & 0xf) << 8u32) | (f3 << 12u32) | (rs1
        << 15u32) | (rs2 << 20u32) | (((u >> 5u32) & 0x3f) << 25u32) | (((u >> 12u32) & 1)
        << 31u32)
}

pub open spec fn encode_u(op: u32, rd: u32, u: u32) -> u32 {
    op | (rd << 7u32) | (u << 12u32)
}

pub open spec fn encode_j(op: u32, rd: u32, u: u32) -> u32 {
    op | (rd << 7u32) | (((u >> 12u32) & 0xff) << 12u32) | (((u >> 11u32) & 1) << 20u32) | (((u
        >> 1u32) & 0x3ff) << 21u32) | (((u >> 20u32) & 1) << 31u32)
}

/// The 32-bit word that encodes a format.
pub open spec fn encode_spec(f: InstructionFormat) -> u32 {
    match f {
        InstructionFormat::R { opcode, rd, funct3, rs1, rs2, funct7 } => encode_r(
            opcode as u32,
            rd as u32,
            funct3 as u32,
            rs1 as u32,
            rs2 as u32,
            funct7 as u32,
        ),
        InstructionFormat::I { opcode, rd, funct3, rs1, imm } => encode_i(
            opcode as u32,
            rd as u32,
            funct3 as u32,
            rs1 as u32,
            ubits(imm as int, 0x1000),
        ),
        InstructionFormat::S { opcode, funct3, rs1, rs2, imm } => encode_s(
            opcode as u32,
            funct3 as u32,
            rs1 as u32,
            rs2 as u32,
            ubits(imm as int, 0x1000),
        ),
        InstructionFormat::B { opcode, funct3, rs1, rs2, imm } => encode_b(
            opcode as u32,
            funct3 as u32,
            rs1 as u32,
            rs2 as u32,
            ubits(imm as int, 0x2000),
        ),
        InstructionFormat::U { opcode, rd, imm } => encode_u(
            opcode as u32,
            rd as u32,
            ubits(imm as int, 0x10_0000),
        ),
        InstructionFormat::J { opcode, rd, imm } => encode_j(
            opcode as u32,
            rd as u32,
            ubits(imm as int, 0x20_0000),
        ),
    }
}

/// Decoding the encoding of a format gives the format back.
pub proof fn lemma_decode_encode(f: InstructionFormat)
    requires
        encodable(f),
    ensures
        decode_32_spec(encode_spec(f)) == Some(f),
{
    lemma_fields_encode(f);
}

proof fn lemma_fields_encode(f: InstructionFormat)
    requires
        encodable(f),
    ensures
        decode_32_fields(encode_spec(f)) == Some(f),
{
    let w = encode_spec(f);
    match f {
        InstructionFormat::R { opcode, rd, funct3, rs1, rs2, funct7 } => {
            let (op, a, b, c, d, e) = (
                opcode as u32,
                rd as u32,
                funct3 as u32,
                rs1 as u32,
                rs2 as u32,
                funct7 as u32,
            );
            assert(w & 0x7f == op && (w >> 7u32) & 0x1f == a && (w >> 12u32) & 0x7 == b && (w
                >> 15u32) & 0x1f == c && (w >> 20u32) & 0x1f == d && w >> 25u32 == e)
                by (bit_vector)
                requires
                    w == encode_r(op, a, b, c, d, e),
                    op < 128 && a < 32 && b < 8 && c < 32 && d < 32 && e < 128,
            ;
        },
        InstructionFormat::I { opcode, rd, funct3, rs1, imm } => {
            let (op, a, b, c, u) = (
                opcode as u32,
                rd as u32,
                funct3 as u32,
                rs1 as u32,
                ubits(imm as int, 0x1000),
            );
            assert(w & 0x7f == op && (w >> 7u32) & 0x1f == a && (w >> 12u32) & 0x7 == b && (w
                >> 15u32) & 0x1f == c && w >> 20u32 == u) by (bit_vector)
                requires
                    w == encode_i(op, a, b, c, u),
                    op < 128 && a < 32 && b < 8 && c < 32 && u < 0x1000,
            ;
        },
        InstructionFormat::S { opcode, funct3, rs1, rs2, imm } => {
            let (op, b, c, d, u) = (
                opcode as u32,
                funct3 as u32,
                rs1 as u32,
                rs2 as u32,
                ubits(imm as int, 0x1000),
            );
            assert(w & 0x7f == op && (w >> 12u32) & 0x7 == b && (w >> 15u32) & 0x1f == c && (w
                >> 20u32) & 0x1f == d && (((w >> 25u32) << 5u32) | ((w >> 7u32) & 0x1f)) == u)
                by (bit_vector)
                requires
                    w == encode_s(op, b, c, d, u),
                    op < 128 && b < 8 && c < 32 && d < 32 && u < 0x1000,
            ;
        },
        InstructionFormat::B { opcode, funct3, rs1, rs2, imm } => {
            let (op, b, c, d, u) = (
                opcode as u32,
                funct3 as u32,
                rs1 as u32,
                rs2 as u32,
                ubits(imm as int, 0x2000),
            );
            assert(u % 2 == 0);
            assert(w & 0x7f == op && (w >> 12u32) & 0x7 == b && (w >> 15u32) & 0x1f == c && (w
                >> 20u32) & 0x1f == d && imm_b_raw(w) == u) by (bit_vector)
                requires
                    w == encode_b(op, b, c, d, u),
                    op < 128 && b < 8 && c < 32 && d < 32 && u < 0x2000 && u % 2 == 0,
            ;
        },
        InstructionFormat::U { opcode, rd, imm } => {
            let (op, a, u) = (opcode as u32, rd as u32, ubits(imm as int, 0x10_0000));
            assert(w & 0x7f == op && (w >> 7u32) & 0x1f == a && w >> 12u32 == u) by (bit_vector)
                requires
                    w == encode_u(op, a, u),
                    op < 128 && a < 32 && u < 0x10_0000,
            ;
        },
        InstructionFormat::J { opcode, rd, imm } => {
            let (op, a, u) = (opcode as u32, rd as u32, ubits(imm as int, 0x20_0000));
            assert(u % 2 == 0);
            assert(w & 0x7f == op && (w >> 7u32) & 0x1f == a && imm_j_raw(w) == u) by (bit_vector)
                requires
                    w == encode_j(op, a, u),
                    op < 128 && a < 32 && u < 0x20_0000 && u % 2 == 0,
            ;
        },
    }
}

impl InstructionFormat {
    /// The 32-bit word that encodes this format; decoding it gives the format back.
    pub fn encode(&self) -> (r: u32)
        requires
            encodable(*self),
        ensures
            r == encode_spec(*self),
            decode_32_spec(r) == Some(*self),
    {
        proof {
            lemma_decode_encode(*self);
        }
        match *self {
            InstructionFormat::R { opcode, rd, funct3, rs1, rs2, funct7 } => (opcode as u32) | ((
            rd as u32) << 7u32) | ((funct3 as u32) << 12u32) | ((rs1 as u32) << 15u32) | ((
            rs2 as u32) << 20u32) | ((funct7 as u32) << 25u32),
            InstructionFormat::I { opcode, rd, funct3, rs1, imm } => {
                let u = ubits_exec(imm as i32, 0x1000);
                (opcode as u32) | ((rd as u32) << 7u32) | ((funct3 as u32) << 12u32) | ((
                rs1 as u32) << 15u32) | (u << 20u32)
            },
            InstructionFormat::S { opcode, funct3, rs1, rs2, imm } => {
                let u = ubits_exec(imm as i32, 0x1000);
                (opcode as u32) | ((u & 0x1f) << 7u32) | ((funct3 as u32) << 12u32) | ((
                rs1 as u32) << 15u32) | ((rs2 as u32) << 20u32) | ((u >> 5u32) << 25u32)
            },
            InstructionFormat::B { opcode, funct3, rs1, rs2, imm } => {
                let u = ubits_exec(imm as i32, 0x2000);
                (opcode as u32) | (((u >> 11u32) & 1) << 7u32) | (((u >> 1u32) & 0xf) << 8u32) | ((
                funct3 as u32) << 12u32) | ((rs1 as u32) << 15u32) | ((rs2 as u32) << 20u32) | (((u
                >> 5u32) & 0x3f) << 25u32) | (((u >> 12u32) & 1) << 31u32)
            },
            InstructionFormat::U { opcode, rd, imm } => {
                let u = ubits_exec(imm, 0x10_0000);
                (opcode as u32) | ((rd as u32) << 7u32) | (u << 12u32)
            },
            InstructionFormat::J { opcode, rd, imm } => {
                let u = ubits_exec(imm, 0x20_0000);
                (opcode as u32) | ((rd as u32) << 7u32) | (((u >> 12u32) & 0xff) << 12u32) | (((u
                >> 11u32) & 1) << 20u32) | (((u >> 1u32) & 0x3ff) << 21u32) | (((u >> 20u32) & 1)
                << 31u32)
            },
        }
    }
}

impl Instruction {
    pub open spec fn spec_size(self) -> usize {
        match self {
            Instruction::IRV32(_) => 4,
            Instruction::CRV32(_) => 2,
        }
    }

    /// The parcel width in bytes.
    pub fn size(&self) -> (r: usize)
        ensures
            r == self.spec_size(),
    {
        match self {
            Instruction::IRV32(_) => 4,
            Instruction::CRV32(_) => 2,
        }
    }

    /// Decodes the parcel; an unrecognised encoding is an illegal opcode.
    pub fn decode(self) -> (r: Result<(Instruction, InstructionFormat), Interrupt>)
        ensures
            match decode_spec(self) {
                Some(f) => r == Ok::<(Instruction, InstructionFormat), Interrupt>((self, f)),
                None => r == Err::<(Instruction, InstructionFormat), Interrupt>(Interrupt::IllegalOpcode(self)),
            },
    {
        let res = match self {
            Instruction::IRV32(instruction) => Instruction::decode_32(instruction),
            Instruction::CRV32(instruction) => Instruction::decode_16(instruction),
        };
        match res {
            Ok(d) => Ok((self, d)),
            Err(_) => Err(Interrupt::IllegalOpcode(self)),
        }
    }

    pub fn decode_32(instruction: u32) -> (r: Result<InstructionFormat, Interrupt>)
        ensures
            match decode_32_spec(instruction) {
                Some(f) => r == Ok::<InstructionFormat, Interrupt>(f),
                None => r == Err::<InstructionFormat, Interrupt>(Interrupt::InstructionDecodingError(Instruction::IRV32(instruction))),
            },
    {
        match Instruction::fields_32(instruction) {
            Ok(f) => if reserved_exec(&f) {
                Err(Interrupt::InstructionDecodingError(Instruction::IRV32(instruction)))
            } else {
                Ok(f)
            },
            Err(e) => Err(e),
        }
    }

    fn fields_32(instruction: u32) -> (r: Result<InstructionFormat, Interrupt>)
        ensures
            match decode_32_fields(instruction) {
                Some(f) => r == Ok::<InstructionFormat, Interrupt>(f),
                None => r == Err::<InstructionFormat, Interrupt>(Interrupt::InstructionDecodingError(Instruction::IRV32(instruction))),
            },
    {
        let w = instruction;
        let opcode = (w & 0x7f) as u8;
        let rd = ((w >> 7u32) & 0x1f) as u8;
        let funct3 = ((w >> 12u32) & 0x7) as u8;
        let rs1 = ((w >> 15u32) & 0x1f) as u8;
        let rs2 = ((w >> 20u32) & 0x1f) as u8;
        if opcode == OP || opcode == OP_32 || opcode == AMO {
            Ok(InstructionFormat::R { opcode, rd, funct3, rs1, rs2, funct7: (w >> 25u32) as u8 })
        } else if opcode == OP_IMM || opcode == OP_IMM_32 || opcode == LOAD || opcode == JALR
            || opcode == SYSTEM || opcode == MISC_MEM {
            let imm = sext_exec(w >> 20u32, 0x800) as i16;
            Ok(InstructionFormat::I { opcode, rd, funct3, rs1, imm })
        } else if opcode == STORE {
            let raw = ((w >> 25u32) << 5u32) | ((w >> 7u32) & 0x1f);
            let imm = sext_exec(raw, 0x800) as i16;
            Ok(InstructionFormat::S { opcode, funct3, rs1, rs2, imm })
        } else if opcode == BRANCH {
            let raw = (((w >> 31u32) & 1) << 12u32) | (((w >> 25u32) & 0x3f) << 5u32) | (((w
                >> 8u32) & 0xf) << 1u32) | (((w >> 7u32) & 1) << 11u32);
            let imm = sext_exec(raw, 0x1000) as i16;
            Ok(InstructionFormat::B { opcode, funct3, rs1, rs2, imm })
        } else if opcode == JAL {
            let raw = (((w >> 31u32) & 1) << 20u32) | (((w >> 21u32) & 0x3ff) << 1u32) | (((w
                >> 20u32) & 1) << 11u32) | (((w >> 12u32) & 0xff) << 12u32);
            let imm = sext_exec(raw, 0x10_0000) as i32;
            Ok(InstructionFormat::J { opcode, rd, imm })
        } else if opcode == LUI || opcode == AUIPC {
            let imm = sext_exec(w >> 12u32, 0x8_0000) as i32;
            Ok(InstructionFormat::U { opcode, rd, imm })
        } else {
            Err(Interrupt::InstructionDecodingError(Instruction::IRV32(instruction)))
        }
    }

    pub fn decode_16(instruction: u16) -> (r: Result<InstructionFormat, Interrupt>)
        ensures
            match decode_16_spec(instruction) {
                Some(f) => r == Ok::<InstructionFormat, Interrupt>(f),
                None => r == Err::<InstructionFormat, Interrupt>(Interrupt::InstructionDecodingError(Instruction::CRV32(instruction))),
            },
    {
        let w = instruction;
        let err = Err(Interrupt::InstructionDecodingError(Instruction::CRV32(instruction)));
        let quadrant = cbits_exec(w, 0, 0x3);
        let funct3 = cbits_exec(w, 13, 0x7);
        let rd = cbits_exec(w, 7, 0x1f) as u8;
        let rs2 = cbits_exec(w, 2, 0x1f) as u8;
        let ci = (cbits_exec(w, 12, 1) << 5u32) | cbits_exec(w, 2, 0x1f);
        if quadrant == 0 {
            let cl = (cbits_exec(w, 10, 0x7) << 3u32) | (cbits_exec(w, 6, 1) << 2u32) | (
            cbits_exec(w, 5, 1) << 6u32);
            let ciw = (cbits_exec(w, 11, 0x3) << 4u32) | (cbits_exec(w, 7, 0xf) << 6u32) | (
            cbits_exec(w, 6, 1) << 2u32) | (cbits_exec(w, 5, 1) << 3u32);
            if funct3 == 0 && ciw != 0 {
                Ok(InstructionFormat::I { opcode: OP_IMM, rd: creg_exec(w, 2), funct3: 0, rs1: 2, imm: ciw as i16 })
            } else if funct3 == 2 {
                Ok(InstructionFormat::I { opcode: LOAD, rd: creg_exec(w, 2), funct3: 2, rs1: creg_exec(w, 7), imm: cl as i16 })
            } else if funct3 == 6 {
                Ok(InstructionFormat::S { opcode: STORE, funct3: 2, rs1: creg_exec(w, 7), rs2: creg_exec(w, 2), imm: cl as i16 })
            } else {
                err
            }
        } else if quadrant == 1 {
            if funct3 == 0 {
                Ok(InstructionFormat::I { opcode: OP_IMM, rd, funct3: 0, rs1: rd, imm: sext_exec(ci, 32) as i16 })
            } else if funct3 == 1 || funct3 == 5 {
                let cj = (cbits_exec(w, 12, 1) << 11u32) | (cbits_exec(w, 11, 1) << 4u32) | (
                cbits_exec(w, 9, 0x3) << 8u32) | (cbits_exec(w, 8, 1) << 10u32) | (cbits_exec(
                    w,
                    7,
                    1,
                ) << 6u32) | (cbits_exec(w, 6, 1) << 7u32) | (cbits_exec(w, 3, 0x7) << 1u32) | (
                cbits_exec(w, 2, 1) << 5u32);
                Ok(InstructionFormat::J { opcode: JAL, rd: if funct3 == 1 { 1u8 } else { 0u8 }, imm: sext_exec(cj, 0x800) as i32 })
            } else if funct3 == 2 {
                Ok(InstructionFormat::I { opcode: OP_IMM, rd, funct3: 0, rs1: 0, imm: sext_exec(ci, 32) as i16 })
            } else if funct3 == 3 && rd == 2 {
                let a16 = (cbits_exec(w, 12, 1) << 9u32) | (cbits_exec(w, 6, 1) << 4u32) | (
                cbits_exec(w, 5, 1) << 6u32) | (cbits_exec(w, 3, 0x3) << 7u32) | (cbits_exec(
                    w,
                    2,
                    1,
                ) << 5u32);
                if a16 == 0 {
                    err
                } else {
                    Ok(InstructionFormat::I { opcode: OP_IMM, rd: 2, funct3: 0, rs1: 2, imm: sext_exec(a16, 0x200) as i16 })
                }
            } else if funct3 == 3 {
                if ci == 0 {
                    err
                } else {
                    Ok(InstructionFormat::U { opcode: LUI, rd, imm: sext_exec(ci, 32) as i32 })
                }
            } else if funct3 == 4 {
                let funct2 = cbits_exec(w, 10, 0x3);
                let r = creg_exec(w, 7);
                if funct2 == 0 {
                    Ok(InstructionFormat::I { opcode: OP_IMM, rd: r, funct3: 5, rs1: r, imm: ci as i16 })
                } else if funct2 == 1 {
                    Ok(InstructionFormat::I { opcode: OP_IMM, rd: r, funct3: 5, rs1: r, imm: (ci | 0x400) as i16 })
                } else if funct2 == 2 {
                    Ok(InstructionFormat::I { opcode: OP_IMM, rd: r, funct3: 7, rs1: r, imm: sext_exec(ci, 32) as i16 })
                } else if cbits_exec(w, 12, 1) == 0 {
                    let op = cbits_exec(w, 5, 0x3);
                    Ok(InstructionFormat::R {
                        opcode: OP,
                        rd: r,
                        funct3: if op == 0 { 0u8 } else if op == 1 { 4u8 } else if op == 2 { 6u8 } else { 7u8 },
                        rs1: r,
                        rs2: creg_exec(w, 2),
                        funct7: if op == 0 { 0x20u8 } else { 0u8 },
                    })
                } else {
                    err
                }
            } else {
                let cb = (cbits_exec(w, 12, 1) << 8u32) | (cbits_exec(w, 10, 0x3) << 3u32) | (
                cbits_exec(w, 5, 0x3) << 6u32) | (cbits_exec(w, 3, 0x3) << 1u32) | (cbits_exec(
                    w,
                    2,
                    1,
                ) << 5u32);
                Ok(InstructionFormat::B { opcode: BRANCH, funct3: (funct3 - 6) as u8, rs1: creg_exec(w, 7), rs2: 0, imm: sext_exec(cb, 0x100) as i16 })
            }
        } else if quadrant == 2 {
            if funct3 == 0 {
                Ok(InstructionFormat::I { opcode: OP_IMM, rd, funct3: 1, rs1: rd, imm: ci as i16 })
            } else if funct3 == 2 {
                let lw = (cbits_exec(w, 12, 1) << 5u32) | (cbits_exec(w, 4, 0x7) << 2u32) | (
                cbits_exec(w, 2, 0x3) << 6u32);
                Ok(InstructionFormat::I { opcode: LOAD, rd, funct3: 2, rs1: 2, imm: lw as i16 })
            } else if funct3 == 4 && cbits_exec(w, 12, 1) == 0 {
                if rs2 == 0 {
                    Ok(InstructionFormat::I { opcode: JALR, rd: 0, funct3: 0, rs1: rd, imm: 0 })
                } else {
                    Ok(InstructionFormat::I { opcode: OP_IMM, rd, funct3: 0, rs1: rs2, imm: 0 })
                }
            } else if funct3 == 4 {
                if rd == 0 && rs2 == 0 {
                    Ok(InstructionFormat::I { opcode: SYSTEM, rd: 0, funct3: 0, rs1: 0, imm: 1 })
                } else if rs2 == 0 {
                    Ok(InstructionFormat::I { opcode: JALR, rd: 1, funct3: 0, rs1: rd, imm: 0 })
                } else {
                    Ok(InstructionFormat::R { opcode: OP, rd, funct3: 0, rs1: rd, rs2, funct7: 0 })
                }
            } else if funct3 == 6 {
                let sw = (cbits_exec(w, 9, 0xf) << 2u32) | (cbits_exec(w, 7, 0x3) << 6u32);
                Ok(InstructionFormat::S { opcode: STORE, funct3: 2, rs1: 2, rs2, imm: sw as i16 })
            } else {
                err
            }
        } else {
            err
        }
    }
}

} // verus!
