use vstd::prelude::*;

use crate::bus::{
    bus_addr, external_from, guest_addr, lemma_ram_same_reads, msip_from,
    no_htif, owner, mem_half_at, ram_load, ram_of, ram_same, ram_same_except, ram_store, same_layout, DynBus,
    Mapping, lemma_ram_same_store, lemma_ram_same_trans,
};
use crate::csr::{Csr, MCAUSE, MCYCLE, MEPC, MINSTRET, MIE, MIP, MSTATUS, MTVAL, MTVEC, SEPC};
use crate::clint::{pending_interrupt, pending_spec, InterruptType};
use crate::device::Device;
use crate::exec::{
    alu_i, alu_i_exec, alu_r, alu_r_exec, amo_d, amo_d_exec, amo_w, amo_w_exec, branch_taken,
    branch_taken_exec, regs_ok, sext_imm, sext_word, simple_step, write_reg,
};
use crate::ins::{
    decode_spec, Instruction, InstructionFormat, AMO, AUIPC, BRANCH, JAL, JALR, LOAD, LUI, MISC_MEM, OP, OP_32,
    OP_IMM, OP_IMM_32, STORE, SYSTEM,
};
use crate::irq::Interrupt;
use crate::see;

verus! {

/// The cycles that one retired instruction is taken to cost.
pub const CYCLES_PER_INSTRUCTION: u64 = 3;

// Exception causes.
pub const CAUSE_INS_ACCESS: u64 = 1;
pub const CAUSE_ILLEGAL: u64 = 2;
pub const CAUSE_LOAD_MISALIGNED: u64 = 4;
pub const CAUSE_LOAD_ACCESS: u64 = 5;
pub const CAUSE_STORE_MISALIGNED: u64 = 6;
pub const CAUSE_STORE_ACCESS: u64 = 7;
/// Set in `mcause` for interrupts.
pub const INTERRUPT_FLAG: u64 = 0x8000_0000_0000_0000;

// Fields of mstatus.
pub const MSTATUS_SIE: u64 = 0x2;
pub const MSTATUS_MIE: u64 = 0x8;
pub const MSTATUS_SPIE: u64 = 0x20;
pub const MSTATUS_MPIE: u64 = 0x80;
pub const MSTATUS_SPP: u64 = 0x100;
pub const MSTATUS_MPP: u64 = 0x1800;

// Encodings of the privileged instructions under SYSTEM with funct3 0.
pub const FUNCT12_ECALL: i16 = 0x0;
pub const FUNCT12_EBREAK: i16 = 0x1;
pub const FUNCT12_SRET: i16 = 0x102;
pub const FUNCT12_WFI: i16 = 0x105;
pub const FUNCT12_MRET: i16 = 0x302;

/// Why execution of an instruction stopped short.
#[derive(Clone, Copy, Debug, PartialEq, Eq, Structural)]
pub enum Exception {
    /// The machine shuts down: no trap is taken.
    Halt,
    /// A trap with this cause and trap value.
    Trap(u64, u64),
}

/// What one tick did.
#[derive(Clone, Copy, Debug, PartialEq, Eq, Structural)]
pub enum Event {
    /// An instruction retired.
    Retired,
    /// An exception trapped with this cause.
    Exception(u64),
    /// An interrupt was taken with this cause.
    Interrupt(u64),
}

pub open spec fn bit(v: u64, mask: u64) -> bool {
    v & mask != 0
}

/// mstatus after trap entry: MPIE takes MIE, MIE is cleared, MPP records
/// machine mode.
pub open spec fn mstatus_after_trap(m: u64) -> u64 {
    (m & !(MSTATUS_MIE | MSTATUS_MPIE | MSTATUS_MPP)) | (if m & MSTATUS_MIE != 0 {
        MSTATUS_MPIE
    } else {
        0
    }) | MSTATUS_MPP
}

/// mstatus after MRET: MIE takes MPIE, MPIE is set, MPP is cleared.
pub open spec fn mstatus_after_mret(m: u64) -> u64 {
    (m & !(MSTATUS_MIE | MSTATUS_MPIE | MSTATUS_MPP)) | (if m & MSTATUS_MPIE != 0 {
        MSTATUS_MIE
    } else {
        0
    }) | MSTATUS_MPIE
}

/// mstatus after SRET: SIE takes SPIE, SPIE is set, SPP is cleared.
pub open spec fn mstatus_after_sret(m: u64) -> u64 {
    (m & !(MSTATUS_SIE | MSTATUS_SPIE | MSTATUS_SPP)) | (if m & MSTATUS_SPIE != 0 {
        MSTATUS_SIE
    } else {
        0
    }) | MSTATUS_SPIE
}

/// Where a trap with `cause` goes for the (legal) `mtvec` value `tvec`: the
/// base, or for an interrupt in vectored mode the base plus four times the
/// cause code.
pub open spec fn trap_target(tvec: u64, cause: u64) -> u64 {
    let base = tvec & !3u64;
    if tvec & 3 == 1 && cause & INTERRUPT_FLAG != 0 {
        base.wrapping_add(((cause & 0x3f) * 4) as u64)
    } else {
        base
    }
}

/// After a trap and the MRET that returns from it, the program counter is
/// the trapping one and the interrupt-enable bit is what it was before.
pub proof fn lemma_trap_mret_round_trip(m: u64)
    ensures
        bit(mstatus_after_mret(mstatus_after_trap(m)), MSTATUS_MIE) == bit(m, MSTATUS_MIE),
        bit(mstatus_after_trap(m), MSTATUS_MPIE) == bit(m, MSTATUS_MIE),
        !bit(mstatus_after_trap(m), MSTATUS_MIE),
{
    let t = mstatus_after_trap(m);
    let r = mstatus_after_mret(t);
    assert(t == (m & !(0x8u64 | 0x80u64 | 0x1800u64)) | (if m & 0x8 != 0 { 0x80u64 } else { 0u64 })
        | 0x1800u64);
    assert(r == (t & !(0x8u64 | 0x80u64 | 0x1800u64)) | (if t & 0x80 != 0 { 0x8u64 } else { 0u64 })
        | 0x80u64);
    assert((r & 0x8 != 0) == (m & 0x8 != 0) && ((t & 0x80 != 0) == (m & 0x8 != 0)) && t & 0x8 == 0)
        by (bit_vector)
        requires
            t == (m & !(0x8u64 | 0x80u64 | 0x1800u64)) | (if m & 0x8 != 0 { 0x80u64 } else { 0u64 })
                | 0x1800u64,
            r == (t & !(0x8u64 | 0x80u64 | 0x1800u64)) | (if t & 0x80 != 0 { 0x8u64 } else { 0u64 })
                | 0x80u64,
    ;
}

/// The CSR number in the immediate of a Zicsr instruction.
pub open spec fn csr_index(imm: i16) -> usize {
    ((imm as u16) & 0xfff) as usize
}

/// The value a Zicsr instruction with `funct3` writes, from the value read
/// and the source operand: CSRRW(I) writes it, CSRRS(I) sets its bits,
/// CSRRC(I) clears them.
pub open spec fn csr_new_value(funct3: u8, old: u64, src: u64) -> u64 {
    if funct3 & 3 == 1 {
        src
    } else if funct3 & 3 == 2 {
        old | src
    } else {
        old & !src
    }
}

/// For a Zicsr instruction, the register file and the CSRs after it: rd gets
/// the old value; the CSR is written unless CSRRS/CSRRC name x0 (or the
/// immediate forms name 0) as source.
pub open spec fn csr_step(f: InstructionFormat, regs: Seq<u64>, csr: Csr) -> Option<(Seq<u64>, Seq<u64>)> {
    match f {
        InstructionFormat::I { opcode, rd, funct3, rs1, imm } => if opcode == SYSTEM && funct3
            != 0 && funct3 != 4 && funct3 < 8 && rd < 32 && rs1 < 32 {
            let n = csr_index(imm);
            let src = if funct3 >= 5 { rs1 as u64 } else { regs[rs1 as int] };
            let old = csr.read_spec(n);
            let writes = funct3 & 3 == 1 || rs1 != 0;
            Some((write_reg(regs, rd, old), if writes {
                csr.write_spec(n, csr_new_value(funct3, old, src))
            } else {
                csr@
            }))
        } else {
            None
        },
        _ => None,
    }
}

/// For a load from an address that RAM serves, the register file after it.
pub open spec fn load_step(f: InstructionFormat, regs: Seq<u64>, devs: Seq<crate::bus::Mapping>) -> Option<Seq<u64>> {
    match f {
        InstructionFormat::I { opcode, rd, funct3, rs1, imm } => if opcode == LOAD && rd < 32 && rs1
            < 32 {
            match ram_load(devs, bus_addr(regs[rs1 as int].wrapping_add(sext_imm(imm))), funct3) {
                Some(v) => Some(write_reg(regs, rd, v)),
                None => None,
            }
        } else {
            None
        },
        _ => None,
    }
}

/// For a store to an address that RAM serves: the index of that RAM's
/// mapping and the bytes it holds after the store.
pub open spec fn store_step(f: InstructionFormat, regs: Seq<u64>, devs: Seq<Mapping>) -> Option<(int, Seq<u8>)> {
    match f {
        InstructionFormat::S { opcode, funct3, rs1, rs2, imm } => if opcode == STORE && rs1 < 32 && rs2
            < 32 {
            let a = bus_addr(regs[rs1 as int].wrapping_add(sext_imm(imm)));
            match ram_store(devs, a, funct3, regs[rs2 as int]) {
                Some(bytes) => Some((owner(devs, a)->0, bytes)),
                None => None,
            }
        } else {
            None
        },
        _ => None,
    }
}

/// The trap a load or store raises when the bus refuses its access: the
/// load or store misaligned or access fault, with the effective address as
/// trap value.
pub open spec fn access_fault(f: InstructionFormat, regs: Seq<u64>, c: u64, tval: u64) -> bool {
    match f {
        InstructionFormat::I { opcode, rs1, imm, .. } => opcode == LOAD ==> (c == CAUSE_LOAD_MISALIGNED
            || c == CAUSE_LOAD_ACCESS) && tval == regs[rs1 as int].wrapping_add(sext_imm(imm)),
        InstructionFormat::S { rs1, imm, .. } => (c == CAUSE_STORE_MISALIGNED || c == CAUSE_STORE_ACCESS)
            && tval == regs[rs1 as int].wrapping_add(sext_imm(imm)),
        _ => true,
    }
}

/// Whether `f` is FENCE or FENCE.I.
pub open spec fn is_fence(f: InstructionFormat) -> bool {
    match f {
        InstructionFormat::I { opcode, rd, funct3, rs1, .. } => opcode == MISC_MEM && (funct3 == 0
            || funct3 == 1) && rd < 32 && rs1 < 32,
        _ => false,
    }
}

/// Whether `f` is SRET.
pub open spec fn is_sret(f: InstructionFormat) -> bool {
    match f {
        InstructionFormat::I { opcode, rd, funct3, rs1, imm } => opcode == SYSTEM && funct3 == 0
            && imm == FUNCT12_SRET && rd < 32 && rs1 < 32,
        _ => false,
    }
}

/// Whether `f` is ECALL.
pub open spec fn is_ecall(f: InstructionFormat) -> bool {
    match f {
        InstructionFormat::I { opcode, rd, funct3, rs1, imm } => opcode == SYSTEM && funct3 == 0
            && imm == FUNCT12_ECALL && rd < 32 && rs1 < 32,
        _ => false,
    }
}

/// The registers and program counter after the SBI call an ECALL makes from
/// `h`, the program counter `npc` pointing past it.
pub open spec fn ecall_post(h: &Hart, npc: u64, regs: Seq<u64>, pc: u64) -> bool {
    let (eid, fid, a0, a1) = (h.regs()[see::EID as int], h.regs()[see::FID as int], h.regs()[see::ARG0 as int], h.regs()[see::ARG1 as int]);
    &&& eid <= 0x0F ==> regs == see::legacy_regs(h.regs(), see::legacy_spec(eid, h.console_in@)) && pc == npc
    &&& eid > 0x0F && !see::v2_reboots(eid, fid, a0, a1) ==> regs == see::v2_regs(h.regs(), see::v2_spec(eid, fid, a0, a1))
        && pc == npc
    &&& eid > 0x0F && see::v2_reboots(eid, fid, a0, a1) ==> regs == Seq::new(32, |i: int| 0u64) && pc == h.start_pc
}

/// Whether `f` is MRET.
pub open spec fn is_mret(f: InstructionFormat) -> bool {
    match f {
        InstructionFormat::I { opcode, rd, funct3, rs1, imm } => opcode == SYSTEM && funct3 == 0
            && imm == FUNCT12_MRET && rd < 32 && rs1 < 32,
        _ => false,
    }
}

/// For an atomic memory operation on an address that RAM serves: the register
/// file after it (rd gets the old value, sign-extended for words), the index
/// of that RAM's mapping and the bytes it holds after the combined value is
/// stored.
pub open spec fn amo_step(f: InstructionFormat, regs: Seq<u64>, devs: Seq<Mapping>) -> Option<
    (Seq<u64>, int, Seq<u8>),
> {
    match f {
        InstructionFormat::R { opcode, rd, funct3, rs1, rs2, funct7 } => if opcode == AMO && rd < 32
            && rs1 < 32 && rs2 < 32 {
            let a = bus_addr(regs[rs1 as int]);
            if funct3 == 2 {
                match ram_load(devs, a, 6) {
                    Some(m) => match amo_w(funct7 >> 2u8, m as u32, regs[rs2 as int] as u32) {
                        Some(n) => match ram_store(devs, a, 2, n as u64) {
                            Some(bytes) => Some(
                                (write_reg(regs, rd, sext_word(m as u32)), owner(devs, a)->0, bytes),
                            ),
                            None => None,
                        },
                        None => None,
                    },
                    None => None,
                }
            } else if funct3 == 3 {
                match ram_load(devs, a, 3) {
                    Some(m) => match amo_d(funct7 >> 2u8, m, regs[rs2 as int]) {
                        Some(n) => match ram_store(devs, a, 3, n) {
                            Some(bytes) => Some((write_reg(regs, rd, m), owner(devs, a)->0, bytes)),
                            None => None,
                        },
                        None => None,
                    },
                    None => None,
                }
            } else {
                None
            }
        } else {
            None
        },
        _ => None,
    }
}

/// Whether `f`, with valid register numbers, is no instruction this hart
/// implements: an unknown opcode, or a reserved funct3, funct7 or shift
/// field.
pub open spec fn illegal_spec(f: InstructionFormat) -> bool {
    regs_ok(f) && match f {
        InstructionFormat::R { opcode, funct3, funct7, .. } => if opcode == OP || opcode == OP_32 {
            alu_r(opcode, funct3, funct7, 0, 0) is None
        } else if opcode == AMO {
            (funct3 != 2 && funct3 != 3) || amo_d(funct7 >> 2u8, 0, 0) is None
        } else {
            true
        },
        InstructionFormat::I { opcode, funct3, imm, .. } => if opcode == OP_IMM || opcode
            == OP_IMM_32 {
            alu_i(opcode, funct3, imm, 0) is None
        } else if opcode == LOAD {
            funct3 >= 7
        } else if opcode == JALR {
            funct3 != 0
        } else if opcode == MISC_MEM {
            funct3 > 1
        } else if opcode == SYSTEM {
            funct3 == 4 || funct3 > 7 || (funct3 == 0 && imm != FUNCT12_ECALL && imm != FUNCT12_EBREAK
                && imm != FUNCT12_MRET && imm != FUNCT12_SRET && imm != FUNCT12_WFI && (imm as u16)
                >> 5u16 != 0b0001001)
        } else {
            true
        },
        InstructionFormat::S { opcode, funct3, .. } => opcode != STORE || funct3 > 3,
        InstructionFormat::B { opcode, funct3, .. } => opcode != BRANCH || branch_taken(funct3, 0, 0) is None,
        InstructionFormat::U { opcode, .. } => opcode != LUI && opcode != AUIPC,
        InstructionFormat::J { opcode, .. } => opcode != JAL,
    }
}

/// The trap a failed bus access raises: misaligned or access fault, for a
/// load or a store, with the address as trap value. Halt stays Halt.
pub open spec fn mem_exception(e: Interrupt, store: bool, addr: u64) -> Exception {
    match e {
        Interrupt::Halt => Exception::Halt,
        Interrupt::Unaligned(_) => Exception::Trap(
            if store { CAUSE_STORE_MISALIGNED } else { CAUSE_LOAD_MISALIGNED },
            addr,
        ),
        _ => Exception::Trap(if store { CAUSE_STORE_ACCESS } else { CAUSE_LOAD_ACCESS }, addr),
    }
}

fn mem_exception_exec(e: Interrupt, store: bool, addr: u64) -> (r: Exception)
    ensures
        r == mem_exception(e, store, addr),
{
    match e {
        Interrupt::Halt => Exception::Halt,
        Interrupt::Unaligned(_) => Exception::Trap(
            if store { CAUSE_STORE_MISALIGNED } else { CAUSE_LOAD_MISALIGNED },
            addr,
        ),
        _ => Exception::Trap(if store { CAUSE_STORE_ACCESS } else { CAUSE_LOAD_ACCESS }, addr),
    }
}

/// The parcel at `pc` where memory (RAM or ROM) holds it: a half word, and
/// where its low two bits are 11 the half word after it as the upper half.
pub open spec fn fetch_spec(devs: Seq<Mapping>, pc: u64) -> Option<Instruction> {
    match mem_half_at(devs, bus_addr(pc)) {
        Some(lo) => if lo & 3 == 3 {
            match mem_half_at(devs, bus_addr(pc.wrapping_add(2))) {
                Some(hi) => Some(Instruction::IRV32((lo as u32) | ((hi as u32) << 16u32))),
                None => None,
            }
        } else {
            Some(Instruction::CRV32(lo))
        },
        None => None,
    }
}

/// For a hart that takes no interrupt, fetches from RAM and decodes an
/// instruction that only touches registers and the program counter: the
/// register file and program counter after it.
pub open spec fn retire_spec(h: &Hart) -> Option<(Seq<u64>, u64)> {
    match fetch_spec(h.bus.devices@, h.pc) {
        Some(ins) => match decode_spec(ins) {
            Some(f) => simple_step(f, h.regs(), h.pc.wrapping_add(ins.spec_size() as u64), h.pc),
            None => None,
        },
        None => None,
    }
}

/// For a hart that takes no interrupt and fetches from RAM a Zicsr
/// instruction or a load from RAM: the register file after it. The program
/// counter then moves past the instruction.
pub open spec fn retire_regs_spec(h: &Hart) -> Option<Seq<u64>> {
    match fetch_spec(h.bus.devices@, h.pc) {
        Some(ins) => match decode_spec(ins) {
            Some(f) => match csr_step(f, h.regs(), h.csr) {
                Some((regs, _)) => Some(regs),
                None => load_step(f, h.regs(), h.bus.devices@),
            },
            None => None,
        },
        None => None,
    }
}

/// The CSRs after an instruction retires: MINSTRET counts it, MCYCLE adds its
/// cost.
pub open spec fn counted(c: Seq<u64>) -> Seq<u64> {
    c.update(MINSTRET as int, c[MINSTRET as int].wrapping_add(1)).update(
        MCYCLE as int,
        c[MCYCLE as int].wrapping_add(CYCLES_PER_INSTRUCTION),
    )
}

/// Whether the parcel at the program counter is in memory and decodes to an
/// instruction whose effect the contracts state exactly: one of registers,
/// program counter and CSRs only, a Zicsr instruction, a load, store or
/// atomic on RAM, MRET, or a fence.
pub open spec fn retires(h: &Hart) -> bool {
    match fetch_spec(h.bus.devices@, h.pc) {
        Some(ins) => match decode_spec(ins) {
            Some(f) => {
                let npc = h.pc.wrapping_add(ins.spec_size() as u64);
                let devs = h.bus.devices@;
                simple_step(f, h.regs(), npc, h.pc) is Some || csr_step(f, h.regs(), h.csr) is Some
                    || load_step(f, h.regs(), devs) is Some || store_step(f, h.regs(), devs) is Some
                    || amo_step(f, h.regs(), devs) is Some || is_mret(f) || is_fence(f) || is_sret(f)
                    || is_ecall(f)
            },
            None => false,
        },
        None => false,
    }
}

/// What retiring the instruction at the program counter of `old` leaves in
/// `new`: registers, program counter and CSRs as the instruction computes
/// them, with the instruction counted; RAM and ROM as before but for the
/// bytes a store or atomic writes; every other device as before.
pub open spec fn retired_as(old: &Hart, new: &Hart) -> bool {
    let ins = fetch_spec(old.bus.devices@, old.pc)->0;
    let f = decode_spec(ins)->0;
    let devs = old.bus.devices@;
    let nd = new.bus.devices@;
    let npc = old.pc.wrapping_add(ins.spec_size() as u64);
    let c = counted(old.csr@);
    &&& simple_step(f, old.regs(), npc, old.pc) matches Some((regs, pc)) ==> new.regs() == regs && new.pc
        == pc && new.csr@ == c && ram_same(devs, nd)
    &&& csr_step(f, old.regs(), old.csr) matches Some((regs, csrs)) ==> new.regs() == regs && new.pc == npc
        && new.csr@ == counted(csrs) && ram_same(devs, nd)
    &&& load_step(f, old.regs(), devs) matches Some(regs) ==> new.regs() == regs && new.pc == npc && new.csr@
        == c && ram_same(devs, nd)
    &&& store_step(f, old.regs(), devs) matches Some((k, bytes)) ==> new.regs() == old.regs() && new.pc == npc
        && new.csr@ == c && ram_of(nd[k].dev) == bytes && ram_same_except(devs, nd, k)
    &&& amo_step(f, old.regs(), devs) matches Some((regs, k, bytes)) ==> new.regs() == regs && new.pc == npc
        && new.csr@ == c && ram_of(nd[k].dev) == bytes && ram_same_except(devs, nd, k)
    &&& is_mret(f) ==> new.regs() == old.regs() && new.pc == old.csr_at(MEPC) && new.csr@ == counted(
        old.csr@.update(MSTATUS as int, mstatus_after_mret(old.csr_at(MSTATUS))),
    ) && ram_same(devs, nd)
    &&& is_fence(f) ==> new.regs() == old.regs() && new.pc == npc && new.csr@ == c && ram_same(devs, nd)
    &&& is_sret(f) ==> new.regs() == old.regs() && new.pc == old.csr_at(SEPC) && new.csr@ == counted(
        old.csr@.update(MSTATUS as int, mstatus_after_sret(old.csr_at(MSTATUS))),
    ) && ram_same(devs, nd)
    &&& is_ecall(f) ==> ecall_post(old, npc, new.regs(), new.pc) && ram_same(devs, nd)
}

/// Whether `old` stepping into `new` with an exception `c` trapped as the
/// fetched load or store's refused access: its fault cause, its effective
/// address as trap value.
pub open spec fn faulted_as(old: &Hart, new: &Hart, c: u64) -> bool {
    let ins = fetch_spec(old.bus.devices@, old.pc)->0;
    let f = decode_spec(ins)->0;
    fetch_spec(old.bus.devices@, old.pc) is Some && decode_spec(ins) is Some && regs_ok(f) && !illegal_spec(f)
        ==> exists|tval: u64| access_fault(f, old.regs(), c, tval) && #[trigger] trap_entered(old, new, c, tval, old.pc)
}

/// Whether the parcel at the program counter is in RAM and decodes to no
/// instruction.
pub open spec fn fetches_illegal(h: &Hart) -> bool {
    match fetch_spec(h.bus.devices@, h.pc) {
        Some(ins) => decode_spec(ins) is None,
        None => false,
    }
}

/// The `mip` bits that interrupt arbitration sees: those of the CSR, with the
/// CLINT's software interrupt, the RTC's timer interrupt and the PLIC's
/// external interrupt added.
pub open spec fn effective_mip(mip: u64, software: bool, timer: bool, external: bool) -> u64 {
    mip | (if software { 0x8u64 } else { 0u64 }) | (if timer { 0x80u64 } else { 0u64 }) | (if external {
        0x800u64
    } else {
        0u64
    })
}

/// The `mcause` value of an interrupt to take.
pub open spec fn interrupt_cause(t: Option<InterruptType>) -> Option<u64> {
    match t {
        Some(t) => Some(t.spec_bit() | INTERRUPT_FLAG),
        None => None,
    }
}

/// Whether some mapping is an RTC.
pub open spec fn has_rtc(devs: Seq<Mapping>) -> bool {
    exists|j: int| 0 <= j < devs.len() && #[trigger] devs[j].dev is Rtc
}

/// The interrupt a hart takes, as an `mcause` value, when the RTC's timer
/// interrupt is `timer`: none while mstatus.MIE is clear.
pub open spec fn poll_spec(h: &Hart, timer: bool) -> Option<u64> {
    if !bit(h.csr_at(MSTATUS), MSTATUS_MIE) {
        None
    } else {
        interrupt_cause(
            pending_spec(
                effective_mip(h.csr_at(MIP), msip_from(h.bus.devices@, 0), timer, external_from(h.bus.devices@, 0)),
                h.csr_at(MIE),
            ),
        )
    }
}

/// No interrupt is due, whatever the timer says.
pub open spec fn quiet(h: &Hart) -> bool {
    poll_spec(h, false) is None && poll_spec(h, true) is None
}

/// `new` is `old` after trap entry with `cause` and `tval` at `epc`: MEPC,
/// MCAUSE and MTVAL are set, mstatus saves MIE into MPIE and clears MIE, the
/// program counter is at the trap vector, the registers are untouched.
pub open spec fn trap_entered(old: &Hart, new: &Hart, cause: u64, tval: u64, epc: u64) -> bool {
    &&& new.csr@ == old.csr@.update(MEPC as int, epc).update(MCAUSE as int, cause).update(
        MTVAL as int,
        tval,
    ).update(MSTATUS as int, mstatus_after_trap(old.csr_at(MSTATUS)))
    &&& new.pc == trap_target(old.csr.read_spec(MTVEC), cause)
    &&& new.regs() == old.regs()
}

/// `new` is `old` after trap entry with `cause` at the program counter of
/// `old`, with some trap value.
pub open spec fn trapped(old: &Hart, new: &Hart, cause: u64) -> bool {
    exists|tval: u64| #[trigger] trap_entered(old, new, cause, tval, old.pc)
}

/// The exception causes a step can raise.
pub open spec fn exception_cause(c: u64) -> bool {
    c == CAUSE_INS_ACCESS || c == CAUSE_ILLEGAL || c == CAUSE_LOAD_MISALIGNED || c
        == CAUSE_LOAD_ACCESS || c == CAUSE_STORE_MISALIGNED || c == CAUSE_STORE_ACCESS
}

/// What a step that reported `e` did to `old`.
pub open spec fn step_post(old: &Hart, new: &Hart, e: Event) -> bool {
    match e {
        Event::Retired => new.csr_at(MINSTRET) == old.csr_at(MINSTRET).wrapping_add(1)
            && new.csr_at(MCYCLE) == old.csr_at(MCYCLE).wrapping_add(CYCLES_PER_INSTRUCTION),
        Event::Exception(c) => exception_cause(c) && new.counters_same(old) && trapped(old, new, c),
        Event::Interrupt(c) => c & INTERRUPT_FLAG != 0 && new.counters_same(old) && new.bus.devices@
            == old.bus.devices@ && trap_entered(
            old,
            new,
            c,
            0,
            old.pc,
        ) && exists|t: bool| (t ==> has_rtc(old.bus.devices@)) && #[trigger] poll_spec(old, t) == Some(c),
    }
}

/// A single RISC-V hart: 32 integer registers (x0 hard-wired to zero), the
/// program counter, the CSR file and the bus it reaches memory and devices
/// through. Bytes written to the SBI console gather in `console_out`; bytes
/// the SBI console may read wait in `console_in`.
pub struct Hart {
    pub start_pc: u64,
    pub bus: DynBus,
    pub registers: Vec<u64>,
    pub pc: u64,
    pub csr: Csr,
    pub stop: bool,
    pub console_out: Vec<u8>,
    pub console_in: Vec<u8>,
}

impl Hart {
    pub open spec fn wf(&self) -> bool {
        &&& self.registers@.len() == 32
        &&& self.registers@[0] == 0
        &&& self.csr.wf()
        &&& self.bus.wf()
    }

    pub open spec fn regs(&self) -> Seq<u64> {
        self.registers@
    }

    /// The value of CSR `n` as stored.
    pub open spec fn csr_at(&self, n: usize) -> u64 {
        self.csr@[n as int]
    }

    /// The pure parts of a hart's state that an instruction outside memory
    /// and the CSRs can change: all but the bus and the CSRs are as before.
    pub open spec fn same_but_regs_pc(&self, other: &Hart) -> bool {
        &&& self.csr@ == other.csr@
        &&& self.bus.devices@ == other.bus.devices@
        &&& self.stop == other.stop
        &&& self.start_pc == other.start_pc
        &&& self.console_out@ == other.console_out@
        &&& self.console_in@ == other.console_in@
    }

    /// Two states that differ at most in memory and devices, whose layout is
    /// kept, and in the register file.
    pub open spec fn frame_mem(&self, other: &Hart) -> bool {
        &&& self.csr@ == other.csr@
        &&& self.pc == other.pc
        &&& self.stop == other.stop
        &&& self.start_pc == other.start_pc
        &&& self.console_out@ == other.console_out@
        &&& self.console_in@ == other.console_in@
        &&& same_layout(self.bus.devices@, other.bus.devices@)
    }

    /// The cycle and retired-instruction counters agree.
    pub open spec fn counters_same(&self, other: &Hart) -> bool {
        &&& self.csr@[MCYCLE as int] == other.csr@[MCYCLE as int]
        &&& self.csr@[MINSTRET as int] == other.csr@[MINSTRET as int]
    }

    /// Hart `id` over `bus`, about to fetch at `pc`.
    pub fn new(id: u64, pc: usize, bus: DynBus) -> (r: Hart)
        requires
            bus.wf(),
        ensures
            r.wf(),
            r.pc == pc as u64,
            r.start_pc == pc as u64,
            r.regs() == Seq::new(32, |i: int| 0u64),
            r.csr@ == Csr::new_spec(id),
            !r.stop,
            r.bus.devices@ == bus.devices@,
    {
        let mut m = Hart {
            start_pc: pc as u64,
            bus,
            registers: vec![0u64; 32],
            pc: pc as u64,
            csr: Csr::new(id),
            stop: false,
            console_out: Vec::new(),
            console_in: Vec::new(),
        };
        assert(m.registers@ =~= Seq::new(32, |i: int| 0u64));
        m
    }

    /// Back to the state of a reboot: every register zero, the trap state
    /// cleared, the program counter at the start address. Memory is kept.
    pub fn reset(&mut self)
        requires
            old(self).wf(),
        ensures
            final(self).wf(),
            final(self).pc == old(self).start_pc,
            final(self).regs() == Seq::new(32, |i: int| 0u64),
            final(self).csr@ == old(self).csr@.update(MSTATUS as int, 0).update(MEPC as int, 0).update(
                MCAUSE as int,
                0,
            ).update(MTVAL as int, 0),
            final(self).bus.devices@ == old(self).bus.devices@,
            final(self).stop == old(self).stop,
            final(self).start_pc == old(self).start_pc,
            final(self).console_out@ == old(self).console_out@,
            final(self).console_in@ == old(self).console_in@,
    {
        self.pc = self.start_pc;
        self.registers = vec![0u64; 32];
        self.csr.write_any(MSTATUS, 0);
        self.csr.write_any(MEPC, 0);
        self.csr.write_any(MCAUSE, 0);
        self.csr.write_any(MTVAL, 0);
        assert(self.registers@ =~= Seq::new(32, |i: int| 0u64));
    }

    /// Stops the hart: every later tick reports Halt.
    pub fn stop(&mut self)
        ensures
            final(self).stop,
            final(self).pc == old(self).pc,
            final(self).registers == old(self).registers,
            final(self).csr == old(self).csr,
            final(self).bus == old(self).bus,
            final(self).start_pc == old(self).start_pc,
            final(self).console_out == old(self).console_out,
            final(self).console_in == old(self).console_in,
    {
        self.stop = true;
    }

    /// Writes `val` to register `reg`; writes to x0 are dropped.
    pub fn set_register(&mut self, reg: u8, val: u64)
        requires
            old(self).registers@.len() == 32,
            reg < 32,
        ensures
            final(self).regs() == write_reg(old(self).regs(), reg, val),
            final(self).pc == old(self).pc,
            final(self).csr == old(self).csr,
            final(self).bus == old(self).bus,
            final(self).stop == old(self).stop,
            final(self).start_pc == old(self).start_pc,
            final(self).console_out == old(self).console_out,
            final(self).console_in == old(self).console_in,
    {
        if reg != 0 {
            self.registers[reg as usize] = val;
        }
    }

    pub fn get_register(&self, reg: u8) -> (r: u64)
        requires
            self.registers@.len() == 32,
            reg < 32,
        ensures
            r == self.regs()[reg as int],
    {
        self.registers[reg as usize]
    }

    /// Writes CSR `n` as an instruction would, through its access policy.
    pub fn set_csr(&mut self, n: usize, v: u64)
        requires
            old(self).wf(),
        ensures
            final(self).wf(),
            final(self).csr@ == old(self).csr.write_spec(n, v),
            final(self).regs() == old(self).regs(),
            final(self).pc == old(self).pc,
            final(self).bus == old(self).bus,
            final(self).stop == old(self).stop,
    {
        self.csr.write(n, v);
    }

    /// CSR `n` as an instruction reads it.
    pub fn get_csr(&self, n: usize) -> (r: u64)
        requires
            self.csr.wf(),
        ensures
            r == self.csr.read_spec(n),
    {
        self.csr.read(n)
    }

    /// Takes a trap: records `epc`, `cause` and `tval`, updates mstatus and
    /// continues at the trap vector.
    pub fn trap(&mut self, cause: u64, tval: u64, epc: u64)
        requires
            old(self).wf(),
        ensures
            final(self).wf(),
            final(self).csr@ == old(self).csr@.update(MEPC as int, epc).update(MCAUSE as int, cause).update(
                MTVAL as int,
                tval,
            ).update(MSTATUS as int, mstatus_after_trap(old(self).csr_at(MSTATUS))),
            final(self).pc == trap_target(old(self).csr.read_spec(MTVEC), cause),
            final(self).regs() == old(self).regs(),
            final(self).bus.devices@ == old(self).bus.devices@,
            final(self).stop == old(self).stop,
            final(self).start_pc == old(self).start_pc,
            final(self).console_out@ == old(self).console_out@,
            final(self).console_in@ == old(self).console_in@,
    {
        let tvec = self.csr.read(MTVEC);
        let m = self.csr.read_any(MSTATUS);
        self.csr.write_any(MEPC, epc);
        self.csr.write_any(MCAUSE, cause);
        self.csr.write_any(MTVAL, tval);
        let saved = if m & MSTATUS_MIE != 0 { MSTATUS_MPIE } else { 0 };
        self.csr.write_any(MSTATUS, (m & !(MSTATUS_MIE | MSTATUS_MPIE | MSTATUS_MPP)) | saved | MSTATUS_MPP);
        let base = tvec & !3u64;
        let code = cause & 0x3f;
        assert(code <= 0x3f) by (bit_vector)
            requires
                code == cause & 0x3f,
        ;
        self.pc = if tvec & 3 == 1 && cause & INTERRUPT_FLAG != 0 {
            base.wrapping_add(code * 4)
        } else {
            base
        };
    }

    /// Returns from a machine-mode trap.
    pub fn mret(&mut self)
        requires
            old(self).wf(),
        ensures
            final(self).wf(),
            final(self).pc == old(self).csr_at(MEPC),
            final(self).csr@ == old(self).csr@.update(MSTATUS as int, mstatus_after_mret(old(self).csr_at(MSTATUS))),
            bit(final(self).csr_at(MSTATUS), MSTATUS_MIE) == bit(old(self).csr_at(MSTATUS), MSTATUS_MPIE),
            final(self).regs() == old(self).regs(),
            final(self).bus.devices@ == old(self).bus.devices@,
            final(self).stop == old(self).stop,
            final(self).start_pc == old(self).start_pc,
            final(self).console_out@ == old(self).console_out@,
            final(self).console_in@ == old(self).console_in@,
    {
        let m = self.csr.read_any(MSTATUS);
        let restored = if m & MSTATUS_MPIE != 0 { MSTATUS_MIE } else { 0 };
        let n = (m & !(MSTATUS_MIE | MSTATUS_MPIE | MSTATUS_MPP)) | restored | MSTATUS_MPIE;
        assert((n & 0x8 != 0) == (m & 0x80 != 0)) by (bit_vector)
            requires
                n == (m & !(0x8u64 | 0x80u64 | 0x1800u64)) | (if m & 0x80 != 0 { 0x8u64 } else { 0u64 }) | 0x80u64,
        ;
        self.csr.write_any(MSTATUS, n);
        self.pc = self.csr.read_any(MEPC);
    }

    /// Returns from a supervisor-mode trap.
    pub fn sret(&mut self)
        requires
            old(self).wf(),
        ensures
            final(self).wf(),
            final(self).pc == old(self).csr_at(SEPC),
            final(self).csr@ == old(self).csr@.update(MSTATUS as int, mstatus_after_sret(old(self).csr_at(MSTATUS))),
            final(self).regs() == old(self).regs(),
            final(self).bus.devices@ == old(self).bus.devices@,
            final(self).stop == old(self).stop,
            final(self).start_pc == old(self).start_pc,
            final(self).console_out@ == old(self).console_out@,
            final(self).console_in@ == old(self).console_in@,
    {
        let m = self.csr.read_any(MSTATUS);
        let restored = if m & MSTATUS_SPIE != 0 { MSTATUS_SIE } else { 0 };
        self.csr.write_any(MSTATUS, (m & !(MSTATUS_SIE | MSTATUS_SPIE | MSTATUS_SPP)) | restored | MSTATUS_SPIE);
        self.pc = self.csr.read_any(SEPC);
    }

    /// The interrupt to take now, as an `mcause` value: none while mstatus.MIE
    /// is clear; otherwise the highest-priority cause pending in `mip`, the
    /// CLINT, the RTC or the PLIC and enabled in `mie`.
    pub fn poll_interrupt(&self) -> (r: Option<u64>)
        requires
            self.wf(),
        ensures
            !bit(self.csr_at(MSTATUS), MSTATUS_MIE) ==> r is None,
            r is Some ==> r->0 & INTERRUPT_FLAG != 0 && r->0 & !INTERRUPT_FLAG < 12,
            exists|timer: bool| (timer ==> has_rtc(self.bus.devices@)) && r == #[trigger] poll_spec(self, timer),
    {
        if self.csr.read_any(MSTATUS) & MSTATUS_MIE == 0 {
            assert((false ==> has_rtc(self.bus.devices@)) && None::<u64> == poll_spec(self, false));
            return None;
        }
        let software = self.bus.software_pending();
        let timer = self.bus.timer_pending();
        let external = self.bus.external_pending();
        let mip = self.csr.read_any(MIP) | (if software { 0x8u64 } else { 0u64 }) | (if timer {
            0x80u64
        } else {
            0u64
        }) | (if external { 0x800u64 } else { 0u64 });
        let mie = self.csr.read_any(MIE);
        assert(mip == effective_mip(self.csr_at(MIP), msip_from(self.bus.devices@, 0), timer, external_from(self.bus.devices@, 0)));
        assert(timer ==> has_rtc(self.bus.devices@));
        let r = match pending_interrupt(mip, mie) {
            None => None,
            Some(t) => {
                let b = t.bit();
                let c = b | INTERRUPT_FLAG;
                assert(c & INTERRUPT_FLAG != 0 && c & !INTERRUPT_FLAG < 12) by (bit_vector)
                    requires
                        c == b | 0x8000_0000_0000_0000u64,
                        b < 12,
                ;
                Some(c)
            },
        };
        assert(r == poll_spec(self, timer));
        r
    }

    /// Fetches the parcel at the program counter: a half word, and where its
    /// low two bits are 11 the half word after it as the upper half.
    pub fn fetch_instruction(&mut self) -> (r: Result<Instruction, Interrupt>)
        requires
            old(self).wf(),
        ensures
            final(self).wf(),
            final(self).frame_mem(old(self)),
            final(self).regs() == old(self).regs(),
            r matches Ok(Instruction::CRV32(h)) ==> h & 3 != 3,
            fetch_spec(old(self).bus.devices@, old(self).pc) matches Some(ins) ==> r == Ok::<
                Instruction,
                Interrupt,
            >(ins),
            fetch_spec(old(self).bus.devices@, old(self).pc) is Some ==> ram_same(
                old(self).bus.devices@,
                final(self).bus.devices@,
            ),
    {
        let ghost devs0 = self.bus.devices@;
        let lo = self.bus.read_half(guest_addr(self.pc))?;
        proof {
            let a = bus_addr(self.pc);
            if mem_half_at(devs0, a) is Some {
                crate::bus::lemma_owner_from_bounds(devs0, a, 0);
                assert(ram_same(devs0, self.bus.devices@));
                lemma_ram_same_reads(devs0, self.bus.devices@, bus_addr(self.pc.wrapping_add(2)), 0);
            }
        }
        if lo & 3 == 3 {
            let ghost devs1 = self.bus.devices@;
            let hi = self.bus.read_half(guest_addr(self.pc.wrapping_add(2)))?;
            proof {
                let a = bus_addr(self.pc.wrapping_add(2));
                if fetch_spec(devs0, self.pc) is Some {
                    crate::bus::lemma_owner_from_bounds(devs1, a, 0);
                    assert(ram_same(devs1, self.bus.devices@));
                    assert forall|j: int| 0 <= j < devs0.len() implies #[trigger] self.bus.devices@[j]
                        == devs0[j] || (devs0[j].dev is Ram && ram_of(self.bus.devices@[j].dev) == ram_of(
                        devs0[j].dev)) || (devs0[j].dev is Rom && crate::bus::rom_of(self.bus.devices@[j].dev)
                        == crate::bus::rom_of(devs0[j].dev)) by {
                        assert(devs1[j] == devs0[j] || (devs0[j].dev is Ram && ram_of(devs1[j].dev) == ram_of(
                            devs0[j].dev)) || (devs0[j].dev is Rom && crate::bus::rom_of(devs1[j].dev)
                            == crate::bus::rom_of(devs0[j].dev)));
                        assert(self.bus.devices@[j] == devs1[j] || (devs1[j].dev is Ram && ram_of(
                            self.bus.devices@[j].dev) == ram_of(devs1[j].dev)) || (devs1[j].dev is Rom
                            && crate::bus::rom_of(self.bus.devices@[j].dev) == crate::bus::rom_of(devs1[j].dev)));
                        assert(crate::bus::same_kind(devs0[j].dev, devs1[j].dev));
                    }
                    crate::bus::lemma_same_layout_trans(devs0, devs1, self.bus.devices@);
                }
            }
            Ok(Instruction::IRV32((lo as u32) | ((hi as u32) << 16u32)))
        } else {
            Ok(Instruction::CRV32(lo))
        }
    }

    /// Loads (LB, LH, LW, LD, LBU, LHU, LWU) into `rd`.
    fn exec_load(&mut self, rd: u8, funct3: u8, rs1: u8, imm: i16) -> (r: Result<(), Exception>)
        requires
            old(self).wf(),
            rd < 32,
            rs1 < 32,
        ensures
            r matches Err(Exception::Trap(c, tval)) ==> (c == CAUSE_ILLEGAL && tval == 0 && funct3 >= 7) || ((c
                == CAUSE_LOAD_MISALIGNED || c == CAUSE_LOAD_ACCESS) && tval == old(self).regs()[rs1 as int].wrapping_add(
                sext_imm(imm),
            )),
            r matches Err(Exception::Trap(c, _)) ==> c == CAUSE_ILLEGAL || c == CAUSE_LOAD_MISALIGNED
                || c == CAUSE_LOAD_ACCESS || c == CAUSE_STORE_MISALIGNED || c == CAUSE_STORE_ACCESS,
            no_htif(old(self).bus.devices@) ==> r != Err::<(), Exception>(Exception::Halt),
            final(self).wf(),
            final(self).frame_mem(old(self)),
            r is Ok ==> final(self).regs() == write_reg(old(self).regs(), rd, final(self).regs()[rd as int]),
            r is Err ==> final(self).regs() == old(self).regs(),
            funct3 >= 7 ==> r == Err::<(), Exception>(Exception::Trap(CAUSE_ILLEGAL, 0)) && *final(self)
                == *old(self),
            ram_load(
                old(self).bus.devices@,
                bus_addr(old(self).regs()[rs1 as int].wrapping_add(sext_imm(imm))),
                funct3,
            ) matches Some(v) ==> r is Ok && final(self).regs() == write_reg(old(self).regs(), rd, v)
                && ram_same(old(self).bus.devices@, final(self).bus.devices@),
    {
        if funct3 >= 7 {
            return Err(Exception::Trap(CAUSE_ILLEGAL, 0));
        }
        let addr = self.registers[rs1 as usize].wrapping_add(imm as i64 as u64);
        let a = guest_addr(addr);
        let v: u64 = if funct3 == 0 {
            match self.bus.read_byte(a) {
                Ok(b) => b as i8 as i64 as u64,
                Err(e) => return Err(mem_exception_exec(e, false, addr)),
            }
        } else if funct3 == 1 {
            match self.bus.read_half(a) {
                Ok(h) => h as i16 as i64 as u64,
                Err(e) => return Err(mem_exception_exec(e, false, addr)),
            }
        } else if funct3 == 2 {
            match self.bus.read_word(a) {
                Ok(w) => w as i32 as i64 as u64,
                Err(e) => return Err(mem_exception_exec(e, false, addr)),
            }
        } else if funct3 == 3 {
            match self.bus.read_double(a) {
                Ok(d) => d,
                Err(e) => return Err(mem_exception_exec(e, false, addr)),
            }
        } else if funct3 == 4 {
            match self.bus.read_byte(a) {
                Ok(b) => b as u64,
                Err(e) => return Err(mem_exception_exec(e, false, addr)),
            }
        } else if funct3 == 5 {
            match self.bus.read_half(a) {
                Ok(h) => h as u64,
                Err(e) => return Err(mem_exception_exec(e, false, addr)),
            }
        } else if funct3 == 6 {
            match self.bus.read_word(a) {
                Ok(w) => w as u64,
                Err(e) => return Err(mem_exception_exec(e, false, addr)),
            }
        } else {
            return Err(Exception::Trap(CAUSE_ILLEGAL, 0));
        };
        self.set_register(rd, v);
        Ok(())
    }

    /// Stores (SB, SH, SW, SD) of the low bytes of `rs2`.
    fn exec_store(&mut self, funct3: u8, rs1: u8, rs2: u8, imm: i16) -> (r: Result<(), Exception>)
        requires
            old(self).wf(),
            rs1 < 32,
            rs2 < 32,
        ensures
            r matches Err(Exception::Trap(c, tval)) ==> (c == CAUSE_ILLEGAL && tval == 0 && funct3 > 3) || ((c
                == CAUSE_STORE_MISALIGNED || c == CAUSE_STORE_ACCESS) && tval == old(self).regs()[rs1 as int].wrapping_add(
                sext_imm(imm),
            )),
            r matches Err(Exception::Trap(c, _)) ==> c == CAUSE_ILLEGAL || c == CAUSE_LOAD_MISALIGNED
                || c == CAUSE_LOAD_ACCESS || c == CAUSE_STORE_MISALIGNED || c == CAUSE_STORE_ACCESS,
            no_htif(old(self).bus.devices@) ==> r != Err::<(), Exception>(Exception::Halt),
            final(self).wf(),
            final(self).frame_mem(old(self)),
            final(self).regs() == old(self).regs(),
            funct3 > 3 ==> r == Err::<(), Exception>(Exception::Trap(CAUSE_ILLEGAL, 0)) && *final(self)
                == *old(self),
            ({
                let a = bus_addr(old(self).regs()[rs1 as int].wrapping_add(sext_imm(imm)));
                ram_store(old(self).bus.devices@, a, funct3, old(self).regs()[rs2 as int]) matches Some(
                    bytes,
                ) ==> r is Ok && ram_of(final(self).bus.devices@[owner(old(self).bus.devices@, a)->0].dev)
                    == bytes && forall|j: int|
                    0 <= j < old(self).bus.devices@.len() && j != owner(old(self).bus.devices@, a)->0
                        ==> final(self).bus.devices@[j] == old(self).bus.devices@[j]
            }),
    {
        if funct3 > 3 {
            return Err(Exception::Trap(CAUSE_ILLEGAL, 0));
        }
        let addr = self.registers[rs1 as usize].wrapping_add(imm as i64 as u64);
        let a = guest_addr(addr);
        let v = self.registers[rs2 as usize];
        let res = if funct3 == 0 {
            self.bus.write_byte(a, v as u8)
        } else if funct3 == 1 {
            self.bus.write_half(a, v as u16)
        } else if funct3 == 2 {
            self.bus.write_word(a, v as u32)
        } else if funct3 == 3 {
            self.bus.write_double(a, v)
        } else {
            return Err(Exception::Trap(CAUSE_ILLEGAL, 0));
        };
        match res {
            Ok(()) => Ok(()),
            Err(e) => Err(mem_exception_exec(e, true, addr)),
        }
    }

    /// Atomic memory operations on words (funct3 2) and double words (3):
    /// load the old value, store the combined one, write the old one to rd.
    fn exec_amo(&mut self, rd: u8, funct3: u8, rs1: u8, rs2: u8, funct7: u8) -> (r: Result<(), Exception>)
        requires
            old(self).wf(),
            rd < 32,
            rs1 < 32,
            rs2 < 32,
        ensures
            r matches Err(Exception::Trap(c, _)) ==> c == CAUSE_ILLEGAL || c == CAUSE_LOAD_MISALIGNED
                || c == CAUSE_LOAD_ACCESS || c == CAUSE_STORE_MISALIGNED || c == CAUSE_STORE_ACCESS,
            no_htif(old(self).bus.devices@) ==> r != Err::<(), Exception>(Exception::Halt),
            final(self).wf(),
            final(self).frame_mem(old(self)),
            final(self).regs() == write_reg(old(self).regs(), rd, final(self).regs()[rd as int]),
            (funct3 != 2 && funct3 != 3) || amo_d(funct7 >> 2u8, 0, 0) is None ==> r == Err::<(), Exception>(
                Exception::Trap(CAUSE_ILLEGAL, 0),
            ) && *final(self) == *old(self),
            r is Err ==> final(self).regs() == old(self).regs(),
            amo_step(
                InstructionFormat::R { opcode: AMO, rd, funct3, rs1, rs2, funct7 },
                old(self).regs(),
                old(self).bus.devices@,
            ) matches Some((regs, k, bytes)) ==> r is Ok && final(self).regs() == regs && ram_of(
                final(self).bus.devices@[k].dev,
            ) == bytes && forall|j: int|
                0 <= j < old(self).bus.devices@.len() && j != k ==> final(self).bus.devices@[j] == old(
                    self,
                ).bus.devices@[j],
    {
        let funct5 = funct7 >> 2u8;
        if (funct3 != 2 && funct3 != 3) || amo_d_exec(funct5, 0, 0).is_none() {
            return Err(Exception::Trap(CAUSE_ILLEGAL, 0));
        }
        let addr = self.registers[rs1 as usize];
        let a = guest_addr(addr);
        let src = self.registers[rs2 as usize];
        let ghost devs0 = self.bus.devices@;
        proof {
            crate::bus::lemma_owner_from_bounds(devs0, a, 0);
        }
        if funct3 == 2 {
            let old = match self.bus.read_word(a) {
                Ok(v) => v,
                Err(e) => return Err(mem_exception_exec(e, false, addr)),
            };
            proof {
                crate::bus::lemma_owner_same_layout(devs0, self.bus.devices@, a, 0);
            }
            let new = match amo_w_exec(funct5, old, src as u32) {
                Some(n) => n,
                None => return Err(Exception::Trap(CAUSE_ILLEGAL, 0)),
            };
            if let Err(e) = self.bus.write_word(a, new) {
                return Err(mem_exception_exec(e, true, addr));
            }
            self.set_register(rd, old as i32 as i64 as u64);
        } else {
            let old = match self.bus.read_double(a) {
                Ok(v) => v,
                Err(e) => return Err(mem_exception_exec(e, false, addr)),
            };
            proof {
                crate::bus::lemma_owner_same_layout(devs0, self.bus.devices@, a, 0);
            }
            let new = match amo_d_exec(funct5, old, src) {
                Some(n) => n,
                None => return Err(Exception::Trap(CAUSE_ILLEGAL, 0)),
            };
            if let Err(e) = self.bus.write_double(a, new) {
                return Err(mem_exception_exec(e, true, addr));
            }
            self.set_register(rd, old);
        }
        Ok(())
    }

    /// The Zicsr instructions.
    fn exec_csr(&mut self, rd: u8, funct3: u8, rs1: u8, imm: i16)
        requires
            old(self).wf(),
            rd < 32,
            rs1 < 32,
            funct3 != 0 && funct3 != 4 && funct3 < 8,
        ensures
            final(self).wf(),
            csr_step(InstructionFormat::I { opcode: SYSTEM, rd, funct3, rs1, imm }, old(self).regs(), old(self).csr)
                == Some((final(self).regs(), final(self).csr@)),
            final(self).pc == old(self).pc,
            final(self).bus == old(self).bus,
            final(self).stop == old(self).stop,
            final(self).start_pc == old(self).start_pc,
            final(self).console_out == old(self).console_out,
            final(self).console_in == old(self).console_in,
            final(self).counters_same(old(self)),
    {
        let n = ((imm as u16) & 0xfff) as usize;
        let src = if funct3 >= 5 {
            rs1 as u64
        } else {
            self.registers[rs1 as usize]
        };
        let old = self.csr.read(n);
        if funct3 & 3 == 1 || rs1 != 0 {
            let v = if funct3 & 3 == 1 {
                src
            } else if funct3 & 3 == 2 {
                old | src
            } else {
                old & !src
            };
            self.csr.write(n, v);
        }
        self.set_register(rd, old);
    }

    /// ECALL, EBREAK, MRET, SRET, WFI and SFENCE.VMA.
    fn exec_system(&mut self, imm: i16) -> (r: Result<(), Exception>)
        requires
            old(self).wf(),
        ensures
            r != Err::<(), Exception>(Exception::Halt),
            final(self).wf(),
            final(self).counters_same(old(self)),
            same_layout(old(self).bus.devices@, final(self).bus.devices@),
            imm == FUNCT12_EBREAK ==> r is Ok && final(self).stop && final(self).pc == old(self).pc
                && final(self).regs() == old(self).regs(),
            imm == FUNCT12_MRET ==> r is Ok && final(self).pc == old(self).csr_at(MEPC) && final(self).csr@
                == old(self).csr@.update(MSTATUS as int, mstatus_after_mret(old(self).csr_at(MSTATUS)))
                && final(self).regs() == old(self).regs() && final(self).bus.devices@ == old(self).bus.devices@,
            imm == FUNCT12_WFI ==> r is Ok && *final(self) == *old(self),
            imm == FUNCT12_SRET ==> r is Ok && final(self).pc == old(self).csr_at(SEPC) && final(self).csr@
                == old(self).csr@.update(MSTATUS as int, mstatus_after_sret(old(self).csr_at(MSTATUS)))
                && final(self).regs() == old(self).regs() && final(self).bus.devices@ == old(self).bus.devices@,
            imm == FUNCT12_ECALL ==> r is Ok && ecall_post(old(self), old(self).pc, final(self).regs(), final(self).pc)
                && final(self).bus.devices@ == old(self).bus.devices@,
            r is Err ==> r == Err::<(), Exception>(Exception::Trap(CAUSE_ILLEGAL, 0)) && *final(self)
                == *old(self),
            imm != FUNCT12_ECALL && imm != FUNCT12_EBREAK && imm != FUNCT12_MRET && imm != FUNCT12_SRET
                && imm != FUNCT12_WFI && (imm as u16) >> 5u16 != 0b0001001 ==> r is Err,
    {
        if imm == FUNCT12_ECALL {
            let _ = see::call(self);
            Ok(())
        } else if imm == FUNCT12_EBREAK {
            see::ebreak(self);
            Ok(())
        } else if imm == FUNCT12_MRET {
            self.mret();
            Ok(())
        } else if imm == FUNCT12_SRET {
            self.sret();
            Ok(())
        } else if imm == FUNCT12_WFI || (imm as u16) >> 5u16 == 0b0001001 {
            // no interrupt to wait for here; no TLB to flush
            Ok(())
        } else {
            Err(Exception::Trap(CAUSE_ILLEGAL, 0))
        }
    }

    /// Executes a decoded instruction fetched at `ipc`; the program counter
    /// already points past it.
    pub fn execute(&mut self, f: InstructionFormat, ipc: u64) -> (r: Result<(), Exception>)
        requires
            old(self).wf(),
        ensures
            no_htif(old(self).bus.devices@) ==> r != Err::<(), Exception>(Exception::Halt),
            final(self).wf(),
            final(self).counters_same(old(self)),
            same_layout(old(self).bus.devices@, final(self).bus.devices@),
            !regs_ok(f) ==> r == Err::<(), Exception>(Exception::Trap(CAUSE_ILLEGAL, 0)) && *final(self) == *old(self),
            illegal_spec(f) ==> r == Err::<(), Exception>(Exception::Trap(CAUSE_ILLEGAL, 0)) && *final(self) == *old(self),
            r is Err ==> final(self).regs() == old(self).regs() && final(self).csr@ == old(self).csr@
                && final(self).pc == old(self).pc,
            r matches Err(Exception::Trap(c, _)) ==> c == CAUSE_ILLEGAL || c == CAUSE_LOAD_MISALIGNED
                || c == CAUSE_LOAD_ACCESS || c == CAUSE_STORE_MISALIGNED || c == CAUSE_STORE_ACCESS,
            is_mret(f) ==> r is Ok && final(self).pc == old(self).csr_at(MEPC) && final(self).csr@
                == old(self).csr@.update(MSTATUS as int, mstatus_after_mret(old(self).csr_at(MSTATUS)))
                && final(self).regs() == old(self).regs() && final(self).bus.devices@ == old(self).bus.devices@,
            is_fence(f) ==> r is Ok && *final(self) == *old(self),
            is_sret(f) ==> r is Ok && final(self).pc == old(self).csr_at(SEPC) && final(self).csr@
                == old(self).csr@.update(MSTATUS as int, mstatus_after_sret(old(self).csr_at(MSTATUS)))
                && final(self).regs() == old(self).regs() && final(self).bus.devices@ == old(self).bus.devices@,
            is_ecall(f) ==> r is Ok && ecall_post(old(self), old(self).pc, final(self).regs(), final(self).pc)
                && final(self).bus.devices@ == old(self).bus.devices@,
            regs_ok(f) && !illegal_spec(f) ==> (r matches Err(Exception::Trap(c, tval)) ==> access_fault(
                f,
                old(self).regs(),
                c,
                tval,
            )),
            amo_step(f, old(self).regs(), old(self).bus.devices@) matches Some((regs, k, bytes)) ==> r is Ok
                && final(self).regs() == regs && ram_of(final(self).bus.devices@[k].dev) == bytes && (forall|j: int|
                0 <= j < old(self).bus.devices@.len() && j != k ==> final(self).bus.devices@[j] == old(
                    self,
                ).bus.devices@[j]) && final(self).csr@ == old(self).csr@ && final(self).pc == old(self).pc,
            simple_step(f, old(self).regs(), old(self).pc, ipc) matches Some((regs, pc)) ==> r is Ok
                && final(self).regs() == regs && final(self).pc == pc && final(self).same_but_regs_pc(old(self)),
            csr_step(f, old(self).regs(), old(self).csr) matches Some((regs, csrs)) ==> r is Ok
                && final(self).regs() == regs && final(self).csr@ == csrs && final(self).pc == old(self).pc
                && final(self).bus == old(self).bus,
            load_step(f, old(self).regs(), old(self).bus.devices@) matches Some(regs) ==> r is Ok
                && final(self).regs() == regs && final(self).pc == old(self).pc && final(self).csr@
                == old(self).csr@ && ram_same(old(self).bus.devices@, final(self).bus.devices@),
            store_step(f, old(self).regs(), old(self).bus.devices@) matches Some((k, bytes)) ==> r is Ok
                && ram_of(final(self).bus.devices@[k].dev) == bytes && (forall|j: int|
                0 <= j < old(self).bus.devices@.len() && j != k ==> final(self).bus.devices@[j] == old(
                    self,
                ).bus.devices@[j]) && final(self).regs() == old(self).regs() && final(self).csr@ == old(self).csr@ && final(self).pc == old(
                self,
            ).pc,
    {
        let ok = match f {
            InstructionFormat::R { rd, rs1, rs2, .. } => rd < 32 && rs1 < 32 && rs2 < 32,
            InstructionFormat::I { rd, rs1, .. } => rd < 32 && rs1 < 32,
            InstructionFormat::S { rs1, rs2, .. } => rs1 < 32 && rs2 < 32,
            InstructionFormat::B { rs1, rs2, .. } => rs1 < 32 && rs2 < 32,
            InstructionFormat::U { rd, .. } => rd < 32,
            InstructionFormat::J { rd, .. } => rd < 32,
        };
        if !ok {
            return Err(Exception::Trap(CAUSE_ILLEGAL, 0));
        }
        let illegal = Err(Exception::Trap(CAUSE_ILLEGAL, 0));
        match f {
            InstructionFormat::R { opcode, rd, funct3, rs1, rs2, funct7 } => {
                if opcode == AMO {
                    return self.exec_amo(rd, funct3, rs1, rs2, funct7);
                }
                let a = self.registers[rs1 as usize];
                let b = self.registers[rs2 as usize];
                match alu_r_exec(opcode, funct3, funct7, a, b) {
                    Some(v) => {
                        self.set_register(rd, v);
                        Ok(())
                    },
                    None => illegal,
                }
            },
            InstructionFormat::I { opcode, rd, funct3, rs1, imm } => {
                if opcode == JALR && funct3 == 0 {
                    let target = self.registers[rs1 as usize].wrapping_add(imm as i64 as u64) & !1u64;
                    let link = self.pc;
                    self.set_register(rd, link);
                    self.pc = target;
                    Ok(())
                } else if opcode == OP_IMM || opcode == OP_IMM_32 {
                    let a = self.registers[rs1 as usize];
                    match alu_i_exec(opcode, funct3, imm, a) {
                        Some(v) => {
                            self.set_register(rd, v);
                            Ok(())
                        },
                        None => illegal,
                    }
                } else if opcode == LOAD {
                    self.exec_load(rd, funct3, rs1, imm)
                } else if opcode == MISC_MEM && (funct3 == 0 || funct3 == 1) {
                    // FENCE, FENCE.I: a single hart sees its own accesses in order
                    Ok(())
                } else if opcode == SYSTEM && funct3 == 0 {
                    self.exec_system(imm)
                } else if opcode == SYSTEM && funct3 != 4 && funct3 < 8 {
                    self.exec_csr(rd, funct3, rs1, imm);
                    Ok(())
                } else {
                    illegal
                }
            },
            InstructionFormat::S { opcode, funct3, rs1, rs2, imm } => {
                if opcode == STORE {
                    self.exec_store(funct3, rs1, rs2, imm)
                } else {
                    illegal
                }
            },
            InstructionFormat::B { opcode, funct3, rs1, rs2, imm } => {
                if opcode != BRANCH {
                    return illegal;
                }
                let a = self.registers[rs1 as usize];
                let b = self.registers[rs2 as usize];
                match branch_taken_exec(funct3, a, b) {
                    Some(taken) => {
                        if taken {
                            self.pc = ipc.wrapping_add(imm as i64 as u64);
                        }
                        Ok(())
                    },
                    None => illegal,
                }
            },
            InstructionFormat::U { opcode, rd, imm } => {
                let v = (imm as i64 * 4096) as u64;
                if opcode == LUI {
                    self.set_register(rd, v);
                    Ok(())
                } else if opcode == AUIPC {
                    self.set_register(rd, ipc.wrapping_add(v));
                    Ok(())
                } else {
                    illegal
                }
            },
            InstructionFormat::J { opcode, rd, imm } => {
                if opcode != JAL {
                    return illegal;
                }
                let link = self.pc;
                self.set_register(rd, link);
                self.pc = ipc.wrapping_add(imm as i64 as u64);
                Ok(())
            },
        }
    }

    /// Advances the retired-instruction counter by one and the cycle counter
    /// by the cost of an instruction.
    fn count(&mut self)
        requires
            old(self).wf(),
        ensures
            final(self).wf(),
            final(self).csr@ == old(self).csr@.update(
                MINSTRET as int,
                old(self).csr_at(MINSTRET).wrapping_add(1),
            ).update(MCYCLE as int, old(self).csr_at(MCYCLE).wrapping_add(CYCLES_PER_INSTRUCTION)),
            final(self).regs() == old(self).regs(),
            final(self).pc == old(self).pc,
            final(self).bus == old(self).bus,
            final(self).stop == old(self).stop,
    {
        let i = self.csr.read_any(MINSTRET);
        self.csr.write_any(MINSTRET, i.wrapping_add(1));
        let c = self.csr.read_any(MCYCLE);
        self.csr.write_any(MCYCLE, c.wrapping_add(CYCLES_PER_INSTRUCTION));
    }

    /// One step of the hart: take a pending interrupt, or fetch, decode and
    /// execute one instruction, trapping where that fails. Reports what it did;
    /// Halt where the hart is stopped or the machine shuts down.
    pub fn step(&mut self) -> (r: Result<Event, Interrupt>)
        requires
            old(self).wf(),
        ensures
            final(self).wf(),
            old(self).stop ==> r == Err::<Event, Interrupt>(Interrupt::Halt) && *final(self) == *old(self),
            r is Err ==> r == Err::<Event, Interrupt>(Interrupt::Halt) && final(self).counters_same(old(self))
                && final(self).stop,
            r matches Ok(e) ==> step_post(old(self), final(self), e),
            same_layout(old(self).bus.devices@, final(self).bus.devices@),
            !old(self).stop && no_htif(old(self).bus.devices@) ==> r is Ok,
            !old(self).stop && poll_spec(old(self), false) is Some && poll_spec(old(self), true) is Some
                ==> r matches Ok(Event::Interrupt(_)),
            quiet(old(self)) ==> !(r matches Ok(Event::Interrupt(_))),
            r matches Ok(Event::Exception(c)) ==> faulted_as(old(self), final(self), c),
            !old(self).stop && quiet(old(self)) && retires(old(self)) ==> r == Ok::<Event, Interrupt>(
                Event::Retired,
            ) && retired_as(old(self), final(self)),
            !old(self).stop && quiet(old(self)) ==> (retire_spec(old(self)) matches Some((regs, pc))
                ==> r == Ok::<Event, Interrupt>(Event::Retired) && final(self).regs() == regs
                && final(self).pc == pc),
            !old(self).stop && quiet(old(self)) ==> (retire_regs_spec(old(self)) matches Some(regs)
                ==> r == Ok::<Event, Interrupt>(Event::Retired) && final(self).regs() == regs
                && final(self).pc == old(self).pc.wrapping_add(
                fetch_spec(old(self).bus.devices@, old(self).pc)->0.spec_size() as u64,
            )),
            !old(self).stop && quiet(old(self)) && fetches_illegal(old(self)) ==> r == Ok::<Event, Interrupt>(
                Event::Exception(CAUSE_ILLEGAL),
            ) && trap_entered(old(self), final(self), CAUSE_ILLEGAL, 0, old(self).pc),
    {
        if self.stop {
            return Err(Interrupt::Halt);
        }
        if let Some(cause) = self.poll_interrupt() {
            let epc = self.pc;
            self.trap(cause, 0, epc);
            return Ok(Event::Interrupt(cause));
        }
        let ipc = self.pc;
        let ghost before_fetch = *self;
        let ins = match self.fetch_instruction() {
            Ok(i) => i,
            Err(_) => {
                self.trap(CAUSE_INS_ACCESS, ipc, ipc);
                assert(trap_entered(old(self), self, CAUSE_INS_ACCESS, ipc, ipc));
                assert(exception_cause(CAUSE_INS_ACCESS));
                assert(exists|tval: u64| #[trigger] trap_entered(old(self), self, CAUSE_INS_ACCESS, tval, old(self).pc)) by {
                    assert(trap_entered(old(self), self, CAUSE_INS_ACCESS, ipc, old(self).pc));
                }
                assert(self.counters_same(old(self)));
                assert(step_post(old(self), self, Event::Exception(CAUSE_INS_ACCESS)));
                return Ok(Event::Exception(CAUSE_INS_ACCESS));
            },
        };
        match ins.decode() {
            Err(_) => {
                self.trap(CAUSE_ILLEGAL, 0, ipc);
                assert(trap_entered(old(self), self, CAUSE_ILLEGAL, 0, ipc));
                assert(exception_cause(CAUSE_ILLEGAL));
                assert(exists|tval: u64| #[trigger] trap_entered(old(self), self, CAUSE_ILLEGAL, tval, old(self).pc)) by {
                    assert(trap_entered(old(self), self, CAUSE_ILLEGAL, 0, old(self).pc));
                }
                assert(self.counters_same(old(self)));
                assert(step_post(old(self), self, Event::Exception(CAUSE_ILLEGAL)));
                Ok(Event::Exception(CAUSE_ILLEGAL))
            },
            Ok((ins, f)) => {
                self.pc = ipc.wrapping_add(ins.size() as u64);
                proof {
                    if fetch_spec(before_fetch.bus.devices@, ipc) is Some {
                        if let InstructionFormat::I { opcode, rd, funct3, rs1, imm } = f {
                            lemma_ram_same_reads(
                                before_fetch.bus.devices@,
                                self.bus.devices@,
                                bus_addr(self.regs()[rs1 as int].wrapping_add(sext_imm(imm))),
                                funct3,
                            );
                        }
                    }
                }
                let ghost e0 = *self;
                proof {
                    if fetch_spec(before_fetch.bus.devices@, ipc) is Some {
                        match f {
                            InstructionFormat::S { funct3, rs1, rs2, imm, .. } => {
                                lemma_ram_same_store(
                                    before_fetch.bus.devices@,
                                    self.bus.devices@,
                                    bus_addr(self.regs()[rs1 as int].wrapping_add(sext_imm(imm))),
                                    funct3,
                                    self.regs()[rs2 as int],
                                );
                            },
                            InstructionFormat::R { funct3, rs1, rs2, funct7, .. } => {
                                let a = bus_addr(self.regs()[rs1 as int]);
                                lemma_ram_same_reads(before_fetch.bus.devices@, self.bus.devices@, a, 6);
                                lemma_ram_same_reads(before_fetch.bus.devices@, self.bus.devices@, a, 3);
                                if ram_load(self.bus.devices@, a, 6) is Some {
                                    let m = ram_load(self.bus.devices@, a, 6)->0;
                                    if amo_w(funct7 >> 2u8, m as u32, self.regs()[rs2 as int] as u32) is Some {
                                        lemma_ram_same_store(before_fetch.bus.devices@, self.bus.devices@, a, 2,
                                            amo_w(funct7 >> 2u8, m as u32, self.regs()[rs2 as int] as u32)->0 as u64);
                                    }
                                }
                                if ram_load(self.bus.devices@, a, 3) is Some {
                                    let m = ram_load(self.bus.devices@, a, 3)->0;
                                    if amo_d(funct7 >> 2u8, m, self.regs()[rs2 as int]) is Some {
                                        lemma_ram_same_store(before_fetch.bus.devices@, self.bus.devices@, a, 3,
                                            amo_d(funct7 >> 2u8, m, self.regs()[rs2 as int])->0);
                                    }
                                }
                            },
                            _ => {},
                        }
                    }
                }
                match self.execute(f, ipc) {
                    Ok(()) => {
                        let ghost e1 = *self;
                        self.count();
                        proof {
                            if fetch_spec(before_fetch.bus.devices@, ipc) is Some {
                                let d0 = before_fetch.bus.devices@;
                                if ram_same(e0.bus.devices@, e1.bus.devices@) {
                                    lemma_ram_same_trans(d0, e0.bus.devices@, e1.bus.devices@);
                                }
                                if e1.bus.devices@ == e0.bus.devices@ {
                                    assert(ram_same(d0, e1.bus.devices@));
                                }
                                assert(self.csr@ == counted(e1.csr@));

                                if store_step(f, e0.regs(), e0.bus.devices@) is Some || amo_step(f, e0.regs(), e0.bus.devices@) is Some {
                                    let (ks, _) = store_step(f, e0.regs(), e0.bus.devices@)->0;
                                    let (_, ka, _) = amo_step(f, e0.regs(), e0.bus.devices@)->0;
                                    let k = if store_step(f, e0.regs(), e0.bus.devices@) is Some { ks } else { ka };
                                    crate::bus::lemma_same_layout_trans(d0, e0.bus.devices@, e1.bus.devices@);
                                    assert(ram_same_except(d0, e1.bus.devices@, k)) by {
                                        assert forall|j: int| 0 <= j < d0.len() && j != k implies #[trigger] e1.bus.devices@[j]
                                            == d0[j] || (d0[j].dev is Ram && ram_of(e1.bus.devices@[j].dev) == ram_of(d0[j].dev))
                                            || (d0[j].dev is Rom && crate::bus::rom_of(e1.bus.devices@[j].dev)
                                            == crate::bus::rom_of(d0[j].dev)) by {
                                            assert(e0.bus.devices@[j] == d0[j] || (d0[j].dev is Ram && ram_of(e0.bus.devices@[j].dev)
                                                == ram_of(d0[j].dev)) || (d0[j].dev is Rom && crate::bus::rom_of(e0.bus.devices@[j].dev)
                                                == crate::bus::rom_of(d0[j].dev)));
                                        }
                                    }
                                }
                                let ins0 = fetch_spec(old(self).bus.devices@, old(self).pc)->0;
                                let f0 = decode_spec(ins0)->0;
                                let devs = old(self).bus.devices@;
                                let nd = self.bus.devices@;
                                let npc = old(self).pc.wrapping_add(ins0.spec_size() as u64);
                                let c = counted(old(self).csr@);
                                assert(ins0 == ins && f0 == f);
                                assert(simple_step(f0, old(self).regs(), npc, old(self).pc) matches Some((regs, pc)) ==> self.regs() == regs && self.pc
                                    == pc && self.csr@ == c && ram_same(devs, nd));
                                assert(csr_step(f0, old(self).regs(), old(self).csr) matches Some((regs, csrs)) ==> self.regs() == regs && self.pc == npc
                                    && self.csr@ == counted(csrs) && ram_same(devs, nd));
                                assert(load_step(f0, old(self).regs(), devs) matches Some(regs) ==> self.regs() == regs && self.pc == npc && self.csr@
                                    == c && ram_same(devs, nd));
                                assert(store_step(f0, old(self).regs(), devs) matches Some((k, bytes)) ==> self.regs() == old(self).regs() && self.pc == npc
                                    && self.csr@ == c && ram_of(nd[k].dev) == bytes && ram_same_except(devs, nd, k));
                                assert(amo_step(f0, old(self).regs(), devs) matches Some((regs, k, bytes)) ==> self.regs() == regs && self.pc == npc
                                    && self.csr@ == c && ram_of(nd[k].dev) == bytes && ram_same_except(devs, nd, k));
                                assert(is_mret(f0) ==> self.regs() == old(self).regs() && self.pc == old(self).csr_at(MEPC) && self.csr@ == counted(
                                    old(self).csr@.update(MSTATUS as int, mstatus_after_mret(old(self).csr_at(MSTATUS))),
                                ) && ram_same(devs, nd));
                                assert(is_fence(f0) ==> self.regs() == old(self).regs() && self.pc == npc && self.csr@ == c && ram_same(devs, nd));
                                assert(is_ecall(f0) ==> ecall_post(old(self), npc, self.regs(), self.pc) && ram_same(devs, nd));
                                assert(retired_as(old(self), self));
                            }
                        }
                        Ok(Event::Retired)
                    },
                    Err(Exception::Halt) => {
                        self.stop = true;
                        Err(Interrupt::Halt)
                    },
                    Err(Exception::Trap(cause, tval)) => {
                        self.trap(cause, tval, ipc);
                        assert(trap_entered(old(self), self, cause, tval, ipc));
                        assert(exception_cause(cause));
                        proof {
                            if fetch_spec(before_fetch.bus.devices@, ipc) is Some && regs_ok(f) && !illegal_spec(f) {
                                assert(access_fault(f, old(self).regs(), cause, tval));
                                assert(trap_entered(old(self), self, cause, tval, old(self).pc));
                            }
                        }
                        assert(trapped(old(self), self, cause)) by {
                            assert(trap_entered(old(self), self, cause, tval, old(self).pc));
                        }
                        assert(self.counters_same(old(self)));
                        Ok(Event::Exception(cause))
                    },
                }
            },
        }
    }

    /// One step of the hart (see `step`): `Ok` after an instruction retired or
    /// a trap was taken, `Err(Halt)` once the hart is stopped. x0 stays zero;
    /// the counters advance when an instruction retires and never otherwise.
    pub fn tick(&mut self) -> (r: Result<(), Interrupt>)
        requires
            old(self).wf(),
        ensures
            final(self).wf(),
            final(self).regs()[0] == 0,
            old(self).stop ==> r == Err::<(), Interrupt>(Interrupt::Halt) && *final(self) == *old(self),
            r is Err ==> r == Err::<(), Interrupt>(Interrupt::Halt) && final(self).counters_same(old(self)),
            r is Ok ==> exists|e: Event| #[trigger] step_post(old(self), final(self), e),
            old(self).csr_at(MCYCLE) <= u64::MAX - CYCLES_PER_INSTRUCTION ==> final(self).csr_at(MCYCLE)
                >= old(self).csr_at(MCYCLE),
            old(self).csr_at(MINSTRET) < u64::MAX ==> final(self).csr_at(MINSTRET) >= old(self).csr_at(MINSTRET),
            !old(self).stop && no_htif(old(self).bus.devices@) ==> r is Ok,
            same_layout(old(self).bus.devices@, final(self).bus.devices@),
            !old(self).stop && poll_spec(old(self), false) is Some && poll_spec(old(self), true) is Some
                ==> r is Ok && final(self).csr_at(MCAUSE) & INTERRUPT_FLAG != 0 && trap_entered(
                old(self),
                final(self),
                final(self).csr_at(MCAUSE),
                0,
                old(self).pc,
            ) && (exists|t: bool| #[trigger] poll_spec(old(self), t) == Some(final(self).csr_at(MCAUSE))),
            !old(self).stop && quiet(old(self)) ==> (retire_spec(old(self)) matches Some((regs, pc)) ==> r is Ok
                && final(self).regs() == regs && final(self).pc == pc),
            !old(self).stop && quiet(old(self)) && retires(old(self)) ==> r is Ok && retired_as(old(self), final(self)),
            !old(self).stop && quiet(old(self)) ==> (retire_regs_spec(old(self)) matches Some(regs) ==> r is Ok
                && final(self).regs() == regs && final(self).pc == old(self).pc.wrapping_add(
                fetch_spec(old(self).bus.devices@, old(self).pc)->0.spec_size() as u64,
            )),
            !old(self).stop && quiet(old(self)) && fetches_illegal(old(self)) ==> r is Ok && trap_entered(
                old(self),
                final(self),
                CAUSE_ILLEGAL,
                0,
                old(self).pc,
            ),
    {
        match self.step() {
            Ok(e) => {
                assert(step_post(old(self), self, e));
                Ok(())
            },
            Err(e) => Err(e),
        }
    }
}

} // verus!
