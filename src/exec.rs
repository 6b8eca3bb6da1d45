use vstd::prelude::*;

use crate::ins::{
    InstructionFormat, AUIPC, BRANCH, JAL, JALR, LUI, OP, OP_32, OP_IMM, OP_IMM_32,
};

verus! {

/// The value of an immediate sign-extended to 64 bits.
pub open spec fn sext_imm(imm: i16) -> u64 {
    imm as i64 as u64
}

/// A 32-bit result sign-extended to 64 bits.
pub open spec fn sext_word(v: u32) -> u64 {
    v as i32 as i64 as u64
}

/// The value of a U-format immediate: `imm << 12`, sign-extended.
pub open spec fn upper(imm: i32) -> u64 {
    (imm as i64 * 4096) as u64
}

/// The register file after writing `v` to `rd`; writes to x0 are dropped.
pub open spec fn write_reg(regs: Seq<u64>, rd: u8, v: u64) -> Seq<u64> {
    if rd == 0 {
        regs
    } else {
        regs.update(rd as int, v)
    }
}

/// The result of a register-register operation (OP and OP-32).
pub open spec fn alu_r(opcode: u8, funct3: u8, funct7: u8, a: u64, b: u64) -> Option<u64> {
    if opcode == OP && funct7 == 0 {
        if funct3 == 0 {
            Some(a.wrapping_add(b))
        } else if funct3 == 1 {
            Some(a.wrapping_shl(b as u32))
        } else if funct3 == 2 {
            Some(if (a as i64) < (b as i64) { 1u64 } else { 0u64 })
        } else if funct3 == 3 {
            Some(if a < b { 1u64 } else { 0u64 })
        } else if funct3 == 4 {
            Some(a ^ b)
        } else if funct3 == 5 {
            Some(a.wrapping_shr(b as u32))
        } else if funct3 == 6 {
            Some(a | b)
        } else {
            Some(a & b)
        }
    } else if opcode == OP && funct7 == 0x20 {
        if funct3 == 0 {
            Some(a.wrapping_sub(b))
        } else if funct3 == 5 {
            Some((a as i64).wrapping_shr(b as u32) as u64)
        } else {
            None
        }
    } else if opcode == OP_32 && funct7 == 0 {
        if funct3 == 0 {
            Some(sext_word((a as u32).wrapping_add(b as u32)))
        } else if funct3 == 1 {
            Some(sext_word((a as u32).wrapping_shl(b as u32)))
        } else if funct3 == 5 {
            Some(sext_word((a as u32).wrapping_shr(b as u32)))
        } else {
            None
        }
    } else if opcode == OP_32 && funct7 == 0x20 {
        if funct3 == 0 {
            Some(sext_word((a as u32).wrapping_sub(b as u32)))
        } else if funct3 == 5 {
            Some(sext_word((a as i32).wrapping_shr(b as u32) as u32))
        } else {
            None
        }
    } else {
        None
    }
}

pub fn alu_r_exec(opcode: u8, funct3: u8, funct7: u8, a: u64, b: u64) -> (r: Option<u64>)
    ensures
        r == alu_r(opcode, funct3, funct7, a, b),
{
    if opcode == OP && funct7 == 0 {
        if funct3 == 0 {
            Some(a.wrapping_add(b))
        } else if funct3 == 1 {
            Some(a.wrapping_shl(b as u32))
        } else if funct3 == 2 {
            Some(if (a as i64) < (b as i64) { 1u64 } else { 0u64 })
        } else if funct3 == 3 {
            Some(if a < b { 1u64 } else { 0u64 })
        } else if funct3 == 4 {
            Some(a ^ b)
        } else if funct3 == 5 {
            Some(a.wrapping_shr(b as u32))
        } else if funct3 == 6 {
            Some(a | b)
        } else {
            Some(a & b)
        }
    } else if opcode == OP && funct7 == 0x20 {
        if funct3 == 0 {
            Some(a.wrapping_sub(b))
        } else if funct3 == 5 {
            Some((a as i64).wrapping_shr(b as u32) as u64)
        } else {
            None
        }
    } else if opcode == OP_32 && funct7 == 0 {
        if funct3 == 0 {
            Some((a as u32).wrapping_add(b as u32) as i32 as i64 as u64)
        } else if funct3 == 1 {
            Some((a as u32).wrapping_shl(b as u32) as i32 as i64 as u64)
        } else if funct3 == 5 {
            Some((a as u32).wrapping_shr(b as u32) as i32 as i64 as u64)
        } else {
            None
        }
    } else if opcode == OP_32 && funct7 == 0x20 {
        if funct3 == 0 {
            Some((a as u32).wrapping_sub(b as u32) as i32 as i64 as u64)
        } else if funct3 == 5 {
            Some((a as i32).wrapping_shr(b as u32) as u32 as i32 as i64 as u64)
        } else {
            None
        }
    } else {
        None
    }
}

/// The upper bits of a shift immediate, which select the kind of shift.
pub open spec fn shift_kind(imm: i16, width_bits: u16) -> u16 {
    (imm as u16) >> width_bits
}

/// The result of a register-immediate operation (OP-IMM and OP-IMM-32).
pub open spec fn alu_i(opcode: u8, funct3: u8, imm: i16, a: u64) -> Option<u64> {
    let b = sext_imm(imm);
    if opcode == OP_IMM {
        if funct3 == 0 {
            Some(a.wrapping_add(b))
        } else if funct3 == 1 {
            if shift_kind(imm, 6) == 0 {
                Some(a.wrapping_shl(b as u32))
            } else {
                None
            }
        } else if funct3 == 2 {
            Some(if (a as i64) < (imm as i64) { 1u64 } else { 0u64 })
        } else if funct3 == 3 {
            Some(if a < b { 1u64 } else { 0u64 })
        } else if funct3 == 4 {
            Some(a ^ b)
        } else if funct3 == 5 {
            if shift_kind(imm, 6) == 0 {
                Some(a.wrapping_shr(b as u32))
            } else if shift_kind(imm, 6) == 0x10 {
                Some((a as i64).wrapping_shr(b as u32) as u64)
            } else {
                None
            }
        } else if funct3 == 6 {
            Some(a | b)
        } else {
            Some(a & b)
        }
    } else if opcode == OP_IMM_32 {
        if funct3 == 0 {
            Some(sext_word((a as u32).wrapping_add(b as u32)))
        } else if funct3 == 1 && shift_kind(imm, 5) == 0 {
            Some(sext_word((a as u32).wrapping_shl(b as u32)))
        } else if funct3 == 5 && shift_kind(imm, 5) == 0 {
            Some(sext_word((a as u32).wrapping_shr(b as u32)))
        } else if funct3 == 5 && shift_kind(imm, 5) == 0x20 {
            Some(sext_word((a as i32).wrapping_shr(b as u32) as u32))
        } else {
            None
        }
    } else {
        None
    }
}

pub fn alu_i_exec(opcode: u8, funct3: u8, imm: i16, a: u64) -> (r: Option<u64>)
    ensures
        r == alu_i(opcode, funct3, imm, a),
{
    let b = imm as i64 as u64;
    let kind6 = (imm as u16) >> 6u16;
    let kind5 = (imm as u16) >> 5u16;
    if opcode == OP_IMM {
        if funct3 == 0 {
            Some(a.wrapping_add(b))
        } else if funct3 == 1 {
            if kind6 == 0 {
                Some(a.wrapping_shl(b as u32))
            } else {
                None
            }
        } else if funct3 == 2 {
            Some(if (a as i64) < (imm as i64) { 1u64 } else { 0u64 })
        } else if funct3 == 3 {
            Some(if a < b { 1u64 } else { 0u64 })
        } else if funct3 == 4 {
            Some(a ^ b)
        } else if funct3 == 5 {
            if kind6 == 0 {
                Some(a.wrapping_shr(b as u32))
            } else if kind6 == 0x10 {
                Some((a as i64).wrapping_shr(b as u32) as u64)
            } else {
                None
            }
        } else if funct3 == 6 {
            Some(a | b)
        } else {
            Some(a & b)
        }
    } else if opcode == OP_IMM_32 {
        if funct3 == 0 {
            Some((a as u32).wrapping_add(b as u32) as i32 as i64 as u64)
        } else if funct3 == 1 && kind5 == 0 {
            Some((a as u32).wrapping_shl(b as u32) as i32 as i64 as u64)
        } else if funct3 == 5 && kind5 == 0 {
            Some((a as u32).wrapping_shr(b as u32) as i32 as i64 as u64)
        } else if funct3 == 5 && kind5 == 0x20 {
            Some((a as i32).wrapping_shr(b as u32) as u32 as i32 as i64 as u64)
        } else {
            None
        }
    } else {
        None
    }
}

/// Whether a branch with `funct3` is taken on operands `a` and `b`.
pub open spec fn branch_taken(funct3: u8, a: u64, b: u64) -> Option<bool> {
    if funct3 == 0 {
        Some(a == b)
    } else if funct3 == 1 {
        Some(a != b)
    } else if funct3 == 4 {
        Some((a as i64) < (b as i64))
    } else if funct3 == 5 {
        Some((a as i64) >= (b as i64))
    } else if funct3 == 6 {
        Some(a < b)
    } else if funct3 == 7 {
        Some(a >= b)
    } else {
        None
    }
}

pub fn branch_taken_exec(funct3: u8, a: u64, b: u64) -> (r: Option<bool>)
    ensures
        r == branch_taken(funct3, a, b),
{
    if funct3 == 0 {
        Some(a == b)
    } else if funct3 == 1 {
        Some(a != b)
    } else if funct3 == 4 {
        Some((a as i64) < (b as i64))
    } else if funct3 == 5 {
        Some((a as i64) >= (b as i64))
    } else if funct3 == 6 {
        Some(a < b)
    } else if funct3 == 7 {
        Some(a >= b)
    } else {
        None
    }
}

/// Register numbers of a format all name one of x0..x31.
pub open spec fn regs_ok(f: InstructionFormat) -> bool {
    match f {
        InstructionFormat::R { rd, rs1, rs2, .. } => rd < 32 && rs1 < 32 && rs2 < 32,
        InstructionFormat::I { rd, rs1, .. } => rd < 32 && rs1 < 32,
        InstructionFormat::S { rs1, rs2, .. } => rs1 < 32 && rs2 < 32,
        InstructionFormat::B { rs1, rs2, .. } => rs1 < 32 && rs2 < 32,
        InstructionFormat::U { rd, .. } => rd < 32,
        InstructionFormat::J { rd, .. } => rd < 32,
    }
}

/// For the instructions that touch only registers and the program counter,
/// the register file and the program counter after executing `f`, where the
/// instruction was fetched at `ipc` and `pc` is the address after it.
pub open spec fn simple_step(f: InstructionFormat, regs: Seq<u64>, pc: u64, ipc: u64) -> Option<
    (Seq<u64>, u64),
> {
    if !regs_ok(f) {
        None
    } else {
        match f {
            InstructionFormat::R { opcode, rd, funct3, rs1, rs2, funct7 } => match alu_r(
                opcode,
                funct3,
                funct7,
                regs[rs1 as int],
                regs[rs2 as int],
            ) {
                Some(v) => Some((write_reg(regs, rd, v), pc)),
                None => None,
            },
            InstructionFormat::I { opcode, rd, funct3, rs1, imm } => if opcode == JALR && funct3
                == 0 {
                Some((write_reg(regs, rd, pc), regs[rs1 as int].wrapping_add(sext_imm(imm)) & !1u64))
            } else {
                match alu_i(opcode, funct3, imm, regs[rs1 as int]) {
                    Some(v) => Some((write_reg(regs, rd, v), pc)),
                    None => None,
                }
            },
            InstructionFormat::B { opcode, funct3, rs1, rs2, imm } => if opcode == BRANCH {
                match branch_taken(funct3, regs[rs1 as int], regs[rs2 as int]) {
                    Some(t) => Some(
                        (regs, if t { ipc.wrapping_add(sext_imm(imm)) } else { pc }),
                    ),
                    None => None,
                }
            } else {
                None
            },
            InstructionFormat::U { opcode, rd, imm } => if opcode == LUI {
                Some((write_reg(regs, rd, upper(imm)), pc))
            } else if opcode == AUIPC {
                Some((write_reg(regs, rd, ipc.wrapping_add(upper(imm))), pc))
            } else {
                None
            },
            InstructionFormat::J { opcode, rd, imm } => if opcode == JAL {
                Some((write_reg(regs, rd, pc), ipc.wrapping_add(imm as i64 as u64)))
            } else {
                None
            },
            InstructionFormat::S { .. } => None,
        }
    }
}

/// A BEQ fetched at `ipc` and `width` bytes wide continues at `ipc` plus its
/// offset when the registers are equal, and right after it otherwise.
pub proof fn lemma_beq_target(regs: Seq<u64>, ipc: u64, width: u64, rs1: u8, rs2: u8, imm: i16)
    requires
        rs1 < 32,
        rs2 < 32,
    ensures
        simple_step(
            InstructionFormat::B { opcode: BRANCH, funct3: 0, rs1, rs2, imm },
            regs,
            ipc.wrapping_add(width),
            ipc,
        ) == Some(
            (
                regs,
                if regs[rs1 as int] == regs[rs2 as int] {
                    ipc.wrapping_add(sext_imm(imm))
                } else {
                    ipc.wrapping_add(width)
                },
            ),
        ),
{
}

/// The value an atomic memory operation on words stores, from the value
/// loaded and the source register; `None` for an unknown operation.
pub open spec fn amo_w(funct5: u8, old: u32, src: u32) -> Option<u32> {
    if funct5 == 0x01 {
        Some(src)
    } else if funct5 == 0x00 {
        Some(old.wrapping_add(src))
    } else if funct5 == 0x0C {
        Some(old & src)
    } else if funct5 == 0x08 {
        Some(old | src)
    } else if funct5 == 0x04 {
        Some(old ^ src)
    } else if funct5 == 0x14 {
        Some(if (old as i32) > (src as i32) { old } else { src })
    } else if funct5 == 0x10 {
        Some(if (old as i32) < (src as i32) { old } else { src })
    } else if funct5 == 0x1C {
        Some(if old > src { old } else { src })
    } else if funct5 == 0x18 {
        Some(if old < src { old } else { src })
    } else {
        None
    }
}

pub fn amo_w_exec(funct5: u8, old: u32, src: u32) -> (r: Option<u32>)
    ensures
        r == amo_w(funct5, old, src),
{
    if funct5 == 0x01 {
        Some(src)
    } else if funct5 == 0x00 {
        Some(old.wrapping_add(src))
    } else if funct5 == 0x0C {
        Some(old & src)
    } else if funct5 == 0x08 {
        Some(old | src)
    } else if funct5 == 0x04 {
        Some(old ^ src)
    } else if funct5 == 0x14 {
        Some(if (old as i32) > (src as i32) { old } else { src })
    } else if funct5 == 0x10 {
        Some(if (old as i32) < (src as i32) { old } else { src })
    } else if funct5 == 0x1C {
        Some(if old > src { old } else { src })
    } else if funct5 == 0x18 {
        Some(if old < src { old } else { src })
    } else {
        None
    }
}

/// The value an atomic memory operation on double words stores.
pub open spec fn amo_d(funct5: u8, old: u64, src: u64) -> Option<u64> {
    if funct5 == 0x01 {
        Some(src)
    } else if funct5 == 0x00 {
        Some(old.wrapping_add(src))
    } else if funct5 == 0x0C {
        Some(old & src)
    } else if funct5 == 0x08 {
        Some(old | src)
    } else if funct5 == 0x04 {
        Some(old ^ src)
    } else if funct5 == 0x14 {
        Some(if (old as i64) > (src as i64) { old } else { src })
    } else if funct5 == 0x10 {
        Some(if (old as i64) < (src as i64) { old } else { src })
    } else if funct5 == 0x1C {
        Some(if old > src { old } else { src })
    } else if funct5 == 0x18 {
        Some(if old < src { old } else { src })
    } else {
        None
    }
}

pub fn amo_d_exec(funct5: u8, old: u64, src: u64) -> (r: Option<u64>)
    ensures
        r == amo_d(funct5, old, src),
{
    if funct5 == 0x01 {
        Some(src)
    } else if funct5 == 0x00 {
        Some(old.wrapping_add(src))
    } else if funct5 == 0x0C {
        Some(old & src)
    } else if funct5 == 0x08 {
        Some(old | src)
    } else if funct5 == 0x04 {
        Some(old ^ src)
    } else if funct5 == 0x14 {
        Some(if (old as i64) > (src as i64) { old } else { src })
    } else if funct5 == 0x10 {
        Some(if (old as i64) < (src as i64) { old } else { src })
    } else if funct5 == 0x1C {
        Some(if old > src { old } else { src })
    } else if funct5 == 0x18 {
        Some(if old < src { old } else { src })
    } else {
        None
    }
}

} // verus!
