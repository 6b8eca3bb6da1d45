use rriscv::bus::{Dev, DynBus};
use rriscv::csr::{MCAUSE, MCYCLE, MEPC, MINSTRET, MSTATUS, MTVEC};
use rriscv::device::Device;
use rriscv::hart::{Event, Hart};
use rriscv::ins::{Instruction, InstructionFormat};
use rriscv::irq::Interrupt;
use rriscv::ram::Ram;
use rriscv::reg::treg;
use rriscv::rom::Rom;

fn bus_with(rom: Rom, ram: Ram) -> DynBus {
    let mut bus = DynBus::new();
    let len = rom.len();
    if len > 0 {
        bus.map(Dev::Rom(rom), 0..len);
    }
    let size = ram.size();
    bus.map(Dev::Ram(ram), 0x8000_0000..0x8000_0000 + size);
    bus
}

fn words(ws: &[u32]) -> Vec<u8> {
    let mut out = Vec::new();
    for w in ws {
        out.extend_from_slice(&w.to_le_bytes());
    }
    out
}

fn hart_at(pc: usize, code: &[u32]) -> Hart {
    let mut ram = Ram::with_size(0x1_0000);
    ram.write(pc - 0x8000_0000, words(code)).unwrap();
    let bus = bus_with(Rom::new(vec![]), ram);
    Hart::new(0, pc, bus)
}

#[test]
fn hart_addi() {
    let rom = Rom::new(vec![0x13, 0x81, 0x00, 0x7d]);
    let ram = Ram::new();
    let bus = bus_with(rom, ram);
    let mut m = Hart::new(0, 0, bus);
    m.tick().expect("tick");
    assert_eq!(m.get_register(2), 2000, "x1 mismatch");
}

#[test]
fn hart_addi_neg() {
    let rom = Rom::new(vec![0x93, 0x01, 0x81, 0xc1]);
    let ram = Ram::new();
    let bus = bus_with(rom, ram);
    let mut m = Hart::new(0, 0, bus);
    m.tick().expect("tick");
    assert_eq!(m.get_register(3) as i64, -1000, "x1 mismatch");
}

#[test]
fn hart_it_works() {
    let rom = Rom::new(vec![
        0x93, 0x00, 0x80, 0x3e, // li	ra,1000
        0x13, 0x81, 0x00, 0x7d, // addi	sp,ra,2000
        0x93, 0x01, 0x81, 0xc1, // addi	gp,sp,-1000
        0x13, 0x82, 0x01, 0x83, // addi	tp,gp,-2000
        0x93, 0x02, 0x82, 0x3e, // addi	t0,tp,1000
        0x13, 0x03, 0x00, 0x04, // li	t1,64
        0x13, 0x03, 0x43, 0x00, // addi	t1,t1,4
    ]);
    let ram = Ram::new();
    let bus = bus_with(rom, ram);
    let mut m = Hart::new(0, 0, bus);
    for _ in 0..=6 {
        m.tick().expect("tick");
    }
    assert_eq!(m.get_register(0), 0, "zero register must be zero");
    assert_eq!(m.get_register(1), 1000, "x1 mismatch");
    assert_eq!(m.get_register(2), 3000, "x2 mismatch");
    assert_eq!(m.get_register(3), 2000, "x3 mismatch");
    assert_eq!(m.get_register(4), 0, "x4 mismatch");
    assert_eq!(m.get_register(5), 1000, "x5 mismatch");
    assert_eq!(m.get_register(6), 0x40 + 4, "deadbeef");
}

fn hart() -> Hart {
    let rom = Rom::new(vec![]);
    let ram = Ram::new();
    let bus = bus_with(rom, ram);
    Hart::new(0, 0, bus)
}

#[test]
fn test_auipc_800032c0() {
    let ins = Instruction::IRV32(0x00001f17);
    let mut m = hart();
    m.pc = 0x800032c0 + 4;

    let decoded = ins.decode().expect("decode").1;
    match decoded {
        InstructionFormat::U { opcode, rd, imm } => {
            assert_eq!(opcode, 0b0010111, "opcode wrong");
            assert_eq!(rd, treg("t5"), "rd wrong");
            assert_eq!(imm, 0x1, "imm wrong");
        }
        _ => assert!(false, "not auipc"),
    }
    m.execute(decoded, 0x800032c0).expect("execute");
    assert_eq!(m.get_register(treg("t5")), 0x800032c0 + (0x1 << 12));
}

#[test]
fn test_beq_80000134() {
    // j	80000938
    let ins = Instruction::IRV32(0x0050006f);
    let mut m = hart();
    m.pc = 0x80000134;

    let decoded = ins.decode().expect("decode").1;
    println!("{:032b} {:?}", 0x0050006f, decoded);
    match decoded {
        InstructionFormat::J { opcode, rd, imm } => {
            assert_eq!(opcode, 0b1101111, "opcode wrong");
            assert_eq!(rd, treg("zero"), "rd wrong");
            assert_eq!(imm, 2052, "imm wrong");
        }
        _ => assert!(false, "not sw"),
    }
    m.execute(decoded, 0x80000134).expect("execute");
}

#[test]
fn test_beq_80000938() {
    // beq	s3,s3,80000138
    let ins = Instruction::IRV32(0x813980e3);
    let mut m = hart();
    m.pc = 0x80000134;

    let decoded = ins.decode().expect("decode").1;
    println!("{:032b} {:?}", 0x813980e3u64, decoded);
    match decoded {
        InstructionFormat::B { opcode, funct3, rs1, rs2, imm } => {
            assert_eq!(opcode, 0b1100011, "opcode wrong");
            assert_eq!(funct3, 0x0, "funct3 wrong");
            assert_eq!(rs1, treg("s3"), "rs1 wrong");
            assert_eq!(rs2, treg("s3"), "rs1 wrong");
            assert_eq!(imm, -2048, "imm wrong");
        }
        _ => assert!(false, "not sw"),
    }
    m.set_register(treg("s3"), 0x55555555);
    m.execute(decoded, 0x80000134).expect("execute");
}

#[test]
fn test_rv64_sll_80000404() {
    let ins = Instruction::IRV32(0x026b1b13);
    let mut m = hart();
    m.pc = 0x80000404;
    m.set_register(treg("s6"), 0x40);
    assert_eq!(m.get_register(treg("s6")), 0x40);

    let decoded = ins.decode().expect("decode").1;
    match decoded {
        InstructionFormat::I { opcode, rd, funct3, rs1, imm } => {
            assert_eq!(opcode, 0b0010011, "opcode wrong");
            assert_eq!(funct3, 0x1, "funct3 wrong");
            assert_eq!(rd, treg("s6"), "rd wrong");
            assert_eq!(rs1, treg("s6"), "rs1 wrong");
            assert_eq!(imm, 38, "imm wrong");
        }
        _ => assert!(false),
    }
    m.execute(decoded, 0x80000400).expect("execute");
    assert_eq!(m.get_register(treg("s6")), 0x40 << 38);
}

#[test]
fn test_addw() {
    let ins = Instruction::IRV32(0x015a81bb);
    let mut m = hart();
    m.pc = 0x80000404;
    m.set_register(treg("gp"), 0x0);
    m.set_register(treg("s5"), 0x1);

    let decoded = ins.decode().expect("decode").1;
    match decoded {
        InstructionFormat::R { opcode, rd, funct3, rs1, rs2, funct7 } => {
            assert_eq!(opcode, 0b0111011, "opcode wrong");
            assert_eq!(funct3, 0x0, "funct3 wrong");
            assert_eq!(rd, treg("gp"), "rd wrong");
            assert_eq!(rs1, treg("s5"), "rs1 wrong");
            assert_eq!(rs2, treg("s5"), "rs1 wrong");
            assert_eq!(funct7, 0x0, "funct7 wrong");
        }
        _ => assert!(false),
    }
    m.execute(decoded, 0x80000400).expect("execute");
    assert_eq!(m.get_register(treg("gp")), 0x2);
}

#[test]
fn test_li() {
    let ins = Instruction::IRV32(0x00000413);
    let mut m = hart();
    m.pc = 0x80000418;
    m.set_register(treg("s0"), 0xdeadbeef);

    let decoded = ins.decode().expect("decode").1;
    match decoded {
        InstructionFormat::I { opcode, rd, funct3, rs1, imm } => {
            assert_eq!(opcode, 0b0010011, "opcode wrong");
            assert_eq!(funct3, 0x0, "funct3 wrong");
            assert_eq!(rd, treg("s0"), "rd wrong");
            assert_eq!(rs1, treg("zero"), "rs1 wrong");
            assert_eq!(imm, 0, "imm wrong");
        }
        _ => assert!(false),
    }
    m.execute(decoded, 0x80000414).expect("execute");
    assert_eq!(m.get_register(treg("gp")), 0x0);
}

#[test]
fn hart_addi_sign_extension_scenario() {
    let mut m = hart_at(0x8000_0000, &[0x7d008113, 0xc1818193]);
    m.tick().unwrap();
    assert_eq!(m.get_register(2), 2000);
    assert_eq!(m.get_register(0), 0);
    m.tick().unwrap();
    assert_eq!(m.get_register(3), 0xFFFF_FFFF_FFFF_FC18);
}

#[test]
fn hart_jal_links_and_jumps() {
    let mut ram = Ram::with_size(0x2000);
    ram.write(0x1000, words(&[0x004000ef])).unwrap();
    let mut bus = DynBus::new();
    bus.map(Dev::Ram(ram), 0..0x2000);
    let mut m = Hart::new(0, 0x1000, bus);
    m.tick().unwrap();
    assert_eq!(m.get_register(1), 0x1004);
    assert_eq!(m.pc, 0x1004);
}

#[test]
fn hart_lw_sign_extends() {
    // lw x5, 0(x6)
    let mut m = hart_at(0x8000_0100, &[0x00032283]);
    m.bus.write_word(0x8000_0000, 0xFFFF_FFFE).unwrap();
    m.set_register(6, 0x8000_0000);
    m.tick().unwrap();
    assert_eq!(m.get_register(5), 0xFFFF_FFFF_FFFF_FFFE);
}

#[test]
fn hart_lwu_and_lbu_zero_extend() {
    // lwu x5, 0(x6); lbu x7, 3(x6)
    let mut m = hart_at(0x8000_0100, &[0x00036283, 0x00334383]);
    m.bus.write_word(0x8000_0000, 0xFFFF_FFFE).unwrap();
    m.set_register(6, 0x8000_0000);
    m.tick().unwrap();
    m.tick().unwrap();
    assert_eq!(m.get_register(5), 0xFFFF_FFFE);
    assert_eq!(m.get_register(7), 0xFF);
}

#[test]
fn hart_csr_write_then_read() {
    // csrrw x0, mtvec, x1; csrrs x2, mtvec, x0
    let mut m = hart_at(0x8000_0000, &[0x30509073, 0x30502173]);
    m.set_register(1, 0x8000_0000);
    m.tick().unwrap();
    m.tick().unwrap();
    assert_eq!(m.get_register(2), 0x8000_0000);
}

#[test]
fn hart_mtvec_mode_is_legalised() {
    // csrrw x0, mtvec, x1; csrrs x2, mtvec, x0
    let mut m = hart_at(0x8000_0000, &[0x30509073, 0x30502173]);
    m.set_register(1, 0x8000_0102);
    m.tick().unwrap();
    m.tick().unwrap();
    assert_eq!(m.get_register(2), 0x8000_0100);
}

#[test]
fn hart_illegal_instruction_traps() {
    let mut m = hart_at(0x8000_0000, &[0x30509073, 0x0000_0000]);
    m.set_register(1, 0x8000_0800);
    m.tick().unwrap();
    assert_eq!(m.step(), Ok(Event::Exception(2)));
    assert_eq!(m.get_csr(MEPC), 0x8000_0004);
    assert_eq!(m.get_csr(MCAUSE), 2);
    assert_eq!(m.pc, 0x8000_0800);
}

#[test]
fn hart_trap_then_mret_returns() {
    // csrrsi x0, mstatus, 8 (MIE=1); illegal; at the vector: mret
    let mut m = hart_at(0x8000_0000, &[0x30046073, 0x0000_0000]);
    let vector: u32 = 0x30200073;
    m.bus.write_word(0x8000_0800, vector).unwrap();
    m.csr.write_any(MTVEC, 0x8000_0800);
    m.tick().unwrap();
    assert_eq!(m.get_csr(MSTATUS) & 0x8, 0x8);
    m.tick().unwrap();
    assert_eq!(m.get_csr(MEPC), 0x8000_0004);
    assert_eq!(m.get_csr(MSTATUS) & 0x88, 0x80);
    m.tick().unwrap();
    assert_eq!(m.pc, 0x8000_0004);
    assert_eq!(m.get_csr(MSTATUS) & 0x8, 0x8);
}

#[test]
fn hart_beq_taken_and_not_taken() {
    // beq x1, x2, +16 at 0x8000_0000
    let mut m = hart_at(0x8000_0000, &[0x00208863]);
    m.set_register(1, 5);
    m.set_register(2, 5);
    m.tick().unwrap();
    assert_eq!(m.pc, 0x8000_0010);
    let mut n = hart_at(0x8000_0000, &[0x00208863]);
    n.set_register(1, 5);
    n.set_register(2, 6);
    n.tick().unwrap();
    assert_eq!(n.pc, 0x8000_0004);
}

#[test]
fn hart_x0_stays_zero() {
    // addi x0, x0, 5
    let mut m = hart_at(0x8000_0000, &[0x00500013]);
    m.set_register(0, 7);
    m.tick().unwrap();
    assert_eq!(m.get_register(0), 0);
}

#[test]
fn hart_counters_advance() {
    let mut m = hart_at(0x8000_0000, &[0x00000013, 0x00000013]);
    m.tick().unwrap();
    m.tick().unwrap();
    assert_eq!(m.get_csr(MINSTRET), 2);
    assert_eq!(m.get_csr(MCYCLE), 6);
    // an instruction cannot set them back
    let mut n = hart_at(0x8000_0000, &[0xb0009073]);
    n.set_register(1, 0);
    n.tick().unwrap();
    assert_eq!(n.get_csr(MINSTRET), 1);
}

#[test]
fn hart_ebreak_stops() {
    let mut m = hart_at(0x8000_0000, &[0x00100073]);
    m.tick().unwrap();
    assert_eq!(m.tick(), Err(Interrupt::Halt));
}

#[test]
fn hart_store_to_htif_halts() {
    // sw x1, 0(x2) with x2 pointing at the HTIF
    let mut ram = Ram::with_size(0x100);
    ram.write(0, words(&[0x00112023])).unwrap();
    let mut bus = DynBus::new();
    bus.map(Dev::Ram(ram), 0..0x100);
    bus.map(Dev::Htif(rriscv::htif::Htif::new()), 0x1000..0x1008);
    let mut h = Hart::new(0, 0, bus);
    h.set_register(2, 0x1000);
    assert_eq!(h.tick(), Err(Interrupt::Halt));
    assert_eq!(h.tick(), Err(Interrupt::Halt));
}

#[test]
fn hart_load_fault_traps_with_address() {
    // lw x5, 0(x6) from an unmapped address
    let mut m = hart_at(0x8000_0000, &[0x00032283]);
    m.set_register(6, 0x10);
    assert_eq!(m.step(), Ok(Event::Exception(5)));
    assert_eq!(m.get_csr(rriscv::csr::MTVAL), 0x10);
}

#[test]
fn hart_amoadd_w() {
    // amoadd.w x5, x7, (x6)
    let mut m = hart_at(0x8000_0100, &[0x007322af]);
    m.bus.write_word(0x8000_0000, 40).unwrap();
    m.set_register(6, 0x8000_0000);
    m.set_register(7, 2);
    m.tick().unwrap();
    assert_eq!(m.get_register(5), 40);
    assert_eq!(m.bus.read_word(0x8000_0000), Ok(42));
}

#[test]
fn hart_compressed_instruction_advances_two() {
    // c.li a0, -32
    let mut ram = Ram::with_size(0x100);
    ram.write(0, vec![0x01, 0x55]).unwrap();
    let mut bus = DynBus::new();
    bus.map(Dev::Ram(ram), 0..0x100);
    let mut m = Hart::new(0, 0, bus);
    m.tick().unwrap();
    assert_eq!(m.get_register(10) as i64, -32);
    assert_eq!(m.pc, 2);
}

#[test]
fn hart_reset_restores_start() {
    let mut m = hart_at(0x8000_0000, &[0x00500093]);
    m.tick().unwrap();
    assert_eq!(m.get_register(1), 5);
    m.reset();
    assert_eq!(m.pc, 0x8000_0000);
    assert_eq!(m.get_register(1), 0);
}

#[test]
fn hart_traps_are_not_counted_as_retired() {
    let mut m = hart_at(0x8000_0000, &[0x30509073, 0x0000_0000]);
    m.set_register(1, 0x8000_0800);
    m.tick().unwrap();
    m.tick().unwrap();
    assert_eq!(m.get_csr(MCAUSE), 2);
    assert_eq!(m.get_csr(MINSTRET), 1);
    assert_eq!(m.get_csr(MCYCLE), 3);
    assert_eq!(m.get_csr(rriscv::csr::MSTATUS) & 0x1800, 0x1800);
}

#[test]
fn hart_rom_program_runs() {
    let rom = Rom::new(vec![0x73, 0x90, 0x50, 0x30, 0x73, 0x21, 0x50, 0x30]);
    let bus = bus_with(rom, Ram::with_size(0x100));
    let mut m = Hart::new(0, 0, bus);
    m.set_register(1, 0x8000_0000);
    m.tick().unwrap();
    m.tick().unwrap();
    assert_eq!(m.get_register(2), 0x8000_0000);
    assert_eq!(m.get_csr(MTVEC), 0x8000_0000);
}
