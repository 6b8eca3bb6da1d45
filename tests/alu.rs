use rriscv::bus::{Dev, DynBus};
use rriscv::exec::{alu_i_exec, alu_r_exec, amo_d_exec, amo_w_exec, branch_taken_exec};
use rriscv::hart::Hart;
use rriscv::ins::InstructionFormat;
use rriscv::ram::Ram;

const OP: u8 = 0b0110011;
const OP_32: u8 = 0b0111011;
const OP_IMM: u8 = 0b0010011;
const OP_IMM_32: u8 = 0b0011011;

#[test]
fn alu_shift_amounts_are_masked() {
    assert_eq!(alu_r_exec(OP, 1, 0, 1, 65), Some(2));
    assert_eq!(alu_r_exec(OP, 5, 0, 0x8000_0000_0000_0000, 127), Some(1));
    assert_eq!(alu_r_exec(OP, 5, 0x20, 0x8000_0000_0000_0000, 63), Some(u64::MAX));
    // 32-bit forms use five bits and sign-extend
    assert_eq!(alu_r_exec(OP_32, 1, 0, 1, 33), Some(2));
    assert_eq!(alu_r_exec(OP_32, 1, 0, 1, 31), Some(0xFFFF_FFFF_8000_0000));
    assert_eq!(alu_r_exec(OP_32, 5, 0x20, 0x8000_0000, 4), Some(0xFFFF_FFFF_F800_0000));
    assert_eq!(alu_r_exec(OP_32, 5, 0, 0x8000_0000, 4), Some(0x0800_0000));
}

#[test]
fn alu_set_less_than_writes_zero_or_one() {
    assert_eq!(alu_r_exec(OP, 2, 0, u64::MAX, 0), Some(1));
    assert_eq!(alu_r_exec(OP, 3, 0, u64::MAX, 0), Some(0));
    assert_eq!(alu_i_exec(OP_IMM, 2, -1, 0), Some(0));
    // sltiu compares against the sign-extended immediate
    assert_eq!(alu_i_exec(OP_IMM, 3, -1, 5), Some(1));
}

#[test]
fn alu_wrapping_and_word_results() {
    assert_eq!(alu_r_exec(OP, 0, 0, u64::MAX, 1), Some(0));
    assert_eq!(alu_r_exec(OP, 0, 0x20, 0, 1), Some(u64::MAX));
    assert_eq!(alu_r_exec(OP_32, 0, 0, 0x7FFF_FFFF, 1), Some(0xFFFF_FFFF_8000_0000));
    assert_eq!(alu_i_exec(OP_IMM_32, 0, 0, 0x1_FFFF_FFFF), Some(u64::MAX));
    assert_eq!(alu_i_exec(OP_IMM, 7, -16, 0xFF), Some(0xF0));
    assert_eq!(alu_i_exec(OP_IMM, 5, 0x404, 0x8000_0000_0000_0000), Some(0xF800_0000_0000_0000));
    // reserved shift encodings
    assert_eq!(alu_i_exec(OP_IMM, 5, 0x200, 1), None);
    assert_eq!(alu_r_exec(OP, 0, 1, 1, 1), None);
}

#[test]
fn alu_branch_conditions() {
    assert_eq!(branch_taken_exec(4, u64::MAX, 0), Some(true));
    assert_eq!(branch_taken_exec(6, u64::MAX, 0), Some(false));
    assert_eq!(branch_taken_exec(5, 3, 3), Some(true));
    assert_eq!(branch_taken_exec(2, 3, 3), None);
}

#[test]
fn alu_atomic_operations() {
    assert_eq!(amo_w_exec(0x14, 0xFFFF_FFFF, 1), Some(1));
    assert_eq!(amo_w_exec(0x1C, 0xFFFF_FFFF, 1), Some(0xFFFF_FFFF));
    assert_eq!(amo_d_exec(0x10, u64::MAX, 1), Some(u64::MAX));
    assert_eq!(amo_d_exec(0x01, 5, 9), Some(9));
    assert_eq!(amo_d_exec(0x02, 5, 9), None);
}

fn blank_hart() -> Hart {
    let mut bus = DynBus::new();
    bus.map(Dev::Ram(Ram::with_size(0x100)), 0..0x100);
    Hart::new(0, 0, bus)
}

#[test]
fn alu_jalr_clears_low_bit() {
    let mut m = blank_hart();
    m.set_register(5, 0x1001);
    m.pc = 0x24;
    let f = InstructionFormat::I { opcode: 0b1100111, rd: 1, funct3: 0, rs1: 5, imm: 2 };
    m.execute(f, 0x20).unwrap();
    assert_eq!(m.pc, 0x1002);
    assert_eq!(m.get_register(1), 0x24);
}

#[test]
fn alu_unknown_csr_reads_zero() {
    let mut m = blank_hart();
    m.set_register(1, 77);
    // csrrw x2, 0x7c0, x1 then csrrs x3, 0x7c0, x0
    let w = InstructionFormat::I { opcode: 0b1110011, rd: 2, funct3: 1, rs1: 1, imm: 0x7c0 };
    let r = InstructionFormat::I { opcode: 0b1110011, rd: 3, funct3: 2, rs1: 0, imm: 0x7c0 };
    m.execute(w, 0).unwrap();
    m.execute(r, 4).unwrap();
    assert_eq!(m.get_register(2), 0);
    assert_eq!(m.get_register(3), 0);
    // misa is read-only
    let misa = m.get_csr(rriscv::csr::MISA);
    m.set_csr(rriscv::csr::MISA, 0);
    assert_eq!(m.get_csr(rriscv::csr::MISA), misa);
    assert_eq!(misa >> 62, 2);
}

#[test]
fn alu_bad_register_number_is_illegal() {
    let mut m = blank_hart();
    let f = InstructionFormat::R { opcode: OP, rd: 40, funct3: 0, rs1: 1, rs2: 2, funct7: 0 };
    assert_eq!(m.execute(f, 0), Err(rriscv::hart::Exception::Trap(2, 0)));
}
