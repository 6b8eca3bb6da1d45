use rriscv::ins::{Instruction, InstructionFormat};
use rriscv::irq::Interrupt;
use rriscv::reg::treg;

#[test]
fn test_sw_80000130() {
    let ins = Instruction::IRV32(0x0181a023);

    let decoded = ins.decode().expect("decode").1;
    match decoded {
        InstructionFormat::S { opcode, funct3, rs1, rs2, imm } => {
            assert_eq!(opcode, 0b0100011, "opcode wrong");
            assert_eq!(funct3, 0x2, "funct3 wrong");
            assert_eq!(rs1, 3, "rs1 wrong");
            assert_eq!(rs2, 24, "rs2 wrong");
            assert_eq!(imm, 0, "imm wrong");
        }
        _ => assert!(false, "not S"),
    }
}

#[test]
fn test_add_80000154() {
    let ins = Instruction::IRV32(0x015a8ab3);

    let decoded = ins.decode().expect("decode").1;
    match decoded {
        InstructionFormat::R { opcode, funct3, funct7, rd, rs1, rs2 } => {
            assert_eq!(opcode, 0b0110011, "opcode wrong");
            assert_eq!(funct3, 0x0, "funct3 wrong");
            assert_eq!(funct7, 0x00, "funct7 wrong");
            assert_eq!(rs1, 21, "rs1 wrong");
            assert_eq!(rs2, 21, "rs2 wrong");
            assert_eq!(rd, 21, "rd wrong");
        }
        _ => assert!(false, "not R"),
    }
}

#[test]
fn test_addi_8000015c() {
    let ins = Instruction::IRV32(0xffe00b13);

    let decoded = ins.decode().expect("decode").1;
    match decoded {
        InstructionFormat::I { opcode, funct3, rd, rs1, imm } => {
            assert_eq!(opcode, 0b0010011, "opcode wrong");
            assert_eq!(funct3, 0x0, "funct3 wrong");
            assert_eq!(rd, 22, "rd wrong");
            assert_eq!(rs1, 0, "rs1 wrong");
            assert_eq!(imm, -2, "imm wrong");
        }
        _ => assert!(false, "not I"),
    }
}

#[test]
fn test_lw_800032a0() {
    let ins = Instruction::IRV32(0x17812483);

    let decoded = ins.decode().expect("decode").1;
    match decoded {
        InstructionFormat::I { opcode, funct3, rd, rs1, imm } => {
            assert_eq!(opcode, 0b0000011, "opcode wrong");
            assert_eq!(funct3, 0x2, "funct3 wrong");
            assert_eq!(rd, treg("s1"), "rd wrong");
            assert_eq!(rs1, treg("sp"), "rs1 wrong");
            assert_eq!(imm, 376, "imm wrong");
        }
        _ => assert!(false, "not I"),
    }
}

#[test]
fn test_jal_8000329c() {
    let ins = Instruction::IRV32(0x0200006f);

    let decoded = ins.decode().expect("decode").1;
    match decoded {
        InstructionFormat::J { opcode, rd, imm } => {
            assert_eq!(opcode, 0b1101111, "opcode wrong");
            assert_eq!(rd, treg("zero"), "rd wrong");
            assert_eq!(imm, 32, "imm wrong");
        }
        _ => assert!(false, "not J"),
    }
}

#[test]
fn test_magic_800032c4() {
    let ins = Instruction::IRV32(0xd41f2023);

    let decoded = ins.decode().expect("decode").1;
    match decoded {
        InstructionFormat::S { opcode, funct3, rs1, rs2, imm } => {
            assert_eq!(opcode, 0b0100011, "opcode wrong");
            assert_eq!(funct3, 0x2, "funct3 wrong");
            assert_eq!(rs1, treg("t5"), "rs1 wrong");
            assert_eq!(rs2, treg("ra"), "rs2 wrong");
            assert_eq!(imm, -704, "imm wrong");
        }
        _ => assert!(false, "not sw"),
    }
}

#[test]
fn test_beq_8000093c() {
    let ins = Instruction::IRV32(0x00258593);

    let decoded = ins.decode().expect("decode").1;
    println!("{:032b} {:?}", 0x00258593, decoded);
    match decoded {
        InstructionFormat::I { opcode, rd, funct3, rs1, imm } => {
            assert_eq!(opcode, 0b0010011, "opcode wrong");
            assert_eq!(funct3, 0x0, "funct3 wrong");
            assert_eq!(rs1, treg("a1"), "rs1 wrong");
            assert_eq!(rd, treg("a1"), "rd wrong");
            assert_eq!(imm, 2, "imm wrong");
        }
        _ => assert!(false, "not sw"),
    }
}

#[test]
fn test_caddi4spn_80000122() {
    // c.addi4spn x14, 28
    let ins = Instruction::CRV32(0x0878);

    let decoded = ins.decode().expect("decode").1;
    println!("{:032b} {:?}", 0x0050006f, decoded);
    match decoded {
        InstructionFormat::I { opcode, funct3, rs1, imm, rd } => {
            assert_eq!(opcode, 0b0010011, "opcode wrong");
            assert_eq!(funct3, 0x0, "funct3 wrong");
            assert_eq!(rd, treg("a4"), "rd wrong");
            assert_eq!(rs1, treg("sp"), "rs1 wrong");
            assert_eq!(imm, 28, "imm wrong");
        }
        _ => assert!(false, "not sw"),
    }
}

#[test]
fn test_cli_80000120() {
    // li	a0,-32
    let ins = Instruction::CRV32(0x5501);

    let decoded = ins.decode().expect("decode").1;
    println!("{:016b} {:?}", 0x5501, decoded);
    match decoded {
        InstructionFormat::I { opcode, funct3, rs1, imm, rd } => {
            assert_eq!(opcode, 0b0010011, "opcode wrong");
            assert_eq!(funct3, 0x0, "funct3 wrong");
            assert_eq!(rd, treg("a0"), "rd wrong");
            assert_eq!(rs1, treg("zero"), "rs1 wrong");
            assert_eq!(imm, -32, "imm wrong");
        }
        _ => assert!(false, "not sw"),
    }
}

#[test]
fn test_clw_80000140() {
    // c.lw x12, 48(x12)
    let ins = Instruction::CRV32(0x5a10);

    let decoded = ins.decode().expect("decode").1;
    println!("{:016b} {:?}", 0x5a10, decoded);
    match decoded {
        InstructionFormat::I { opcode, funct3, rs1, imm, rd } => {
            assert_eq!(opcode, 0b0000011, "opcode wrong");
            assert_eq!(funct3, 0x2, "funct3 wrong");
            assert_eq!(rd, treg("a2"), "rd wrong");
            assert_eq!(rs1, treg("a2"), "rs1 wrong");
            assert_eq!(imm, 48, "imm wrong");
        }
        _ => assert!(false, "not sw"),
    }
}

#[test]
fn test_clw_800001c0() {
    // lw	a4,4(s1)
    let ins = Instruction::CRV32(0x40d8);

    let decoded = ins.decode().expect("decode").1;
    println!("{:016b} {:?}", 0x40d8, decoded);
    match decoded {
        InstructionFormat::I { opcode, funct3, rs1, imm, rd } => {
            assert_eq!(opcode, 0b0000011, "opcode wrong");
            assert_eq!(funct3, 0x2, "funct3 wrong");
            assert_eq!(rd, treg("a4"), "rd wrong");
            assert_eq!(rs1, treg("s1"), "rs1 wrong");
            assert_eq!(imm, 4, "imm wrong");
        }
        _ => assert!(false, "not sw"),
    }
}

#[test]
fn test_clw_800002c0() {
    // lw	s0,64(a1)
    let ins = Instruction::CRV32(0x41a0);

    let decoded = ins.decode().expect("decode").1;
    println!("{:016b} {:?}", 0x41a0, decoded);
    match decoded {
        InstructionFormat::I { opcode, funct3, rs1, imm, rd } => {
            assert_eq!(opcode, 0b0000011, "opcode wrong");
            assert_eq!(funct3, 0x2, "funct3 wrong");
            assert_eq!(rd, treg("s0"), "rd wrong");
            assert_eq!(rs1, treg("a1"), "rs1 wrong");
            assert_eq!(imm, 64, "imm wrong");
        }
        _ => assert!(false, "not sw"),
    }
}

#[test]
fn ins_sizes() {
    assert_eq!(Instruction::IRV32(0x13).size(), 4);
    assert_eq!(Instruction::CRV32(0x1).size(), 2);
}

#[test]
fn ins_all_zero_parcel_is_illegal() {
    let ins = Instruction::CRV32(0x0000);
    assert_eq!(ins.decode(), Err(Interrupt::IllegalOpcode(ins)));
}

#[test]
fn ins_unknown_opcode_is_a_decoding_error() {
    assert_eq!(
        Instruction::decode_32(0xffff_ffff),
        Err(Interrupt::InstructionDecodingError(Instruction::IRV32(0xffff_ffff)))
    );
    let ins = Instruction::IRV32(0x0000_007f);
    assert_eq!(ins.decode(), Err(Interrupt::IllegalOpcode(ins)));
}

#[test]
fn ins_branch_and_jump_offsets() {
    // beq s3,s3,-2048
    match Instruction::decode_32(0x813980e3).unwrap() {
        InstructionFormat::B { funct3, rs1, rs2, imm, .. } => {
            assert_eq!((funct3, rs1, rs2, imm), (0, 19, 19, -2048));
        }
        _ => panic!("not B"),
    }
    // jal ra, +4
    assert_eq!(
        Instruction::decode_32(0x004000ef).unwrap(),
        InstructionFormat::J { opcode: 0b1101111, rd: 1, imm: 4 }
    );
    // lui a0, 0xfffff
    assert_eq!(
        Instruction::decode_32(0xfffff537).unwrap(),
        InstructionFormat::U { opcode: 0b0110111, rd: 10, imm: -1 }
    );
}

#[test]
fn ins_compressed_expansions() {
    // c.j -2
    assert_eq!(
        Instruction::decode_16(0xbffd).unwrap(),
        InstructionFormat::J { opcode: 0b1101111, rd: 0, imm: -2 }
    );
    // c.beqz a0, +8
    assert_eq!(
        Instruction::decode_16(0xc501).unwrap(),
        InstructionFormat::B { opcode: 0b1100011, funct3: 0, rs1: 10, rs2: 0, imm: 8 }
    );
    // c.mv a0, a1
    assert_eq!(
        Instruction::decode_16(0x852e).unwrap(),
        InstructionFormat::I { opcode: 0b0010011, rd: 10, funct3: 0, rs1: 11, imm: 0 }
    );
    // c.add a0, a1
    assert_eq!(
        Instruction::decode_16(0x952e).unwrap(),
        InstructionFormat::R { opcode: 0b0110011, rd: 10, funct3: 0, rs1: 10, rs2: 11, funct7: 0 }
    );
    // c.jr ra
    assert_eq!(
        Instruction::decode_16(0x8082).unwrap(),
        InstructionFormat::I { opcode: 0b1100111, rd: 0, funct3: 0, rs1: 1, imm: 0 }
    );
    // c.ebreak
    assert_eq!(
        Instruction::decode_16(0x9002).unwrap(),
        InstructionFormat::I { opcode: 0b1110011, rd: 0, funct3: 0, rs1: 0, imm: 1 }
    );
    // c.addi16sp sp, -64
    assert_eq!(
        Instruction::decode_16(0x7139).unwrap(),
        InstructionFormat::I { opcode: 0b0010011, rd: 2, funct3: 0, rs1: 2, imm: -64 }
    );
    // c.swsp ra, 12(sp)
    assert_eq!(
        Instruction::decode_16(0xc606).unwrap(),
        InstructionFormat::S { opcode: 0b0100011, funct3: 2, rs1: 2, rs2: 1, imm: 12 }
    );
    // c.lwsp ra, 12(sp)
    assert_eq!(
        Instruction::decode_16(0x40b2).unwrap(),
        InstructionFormat::I { opcode: 0b0000011, rd: 1, funct3: 2, rs1: 2, imm: 12 }
    );
    // c.srai a0, 3
    assert_eq!(
        Instruction::decode_16(0x850d).unwrap(),
        InstructionFormat::I { opcode: 0b0010011, rd: 10, funct3: 5, rs1: 10, imm: 0x403 }
    );
}

#[test]
fn ins_encode_decode_round_trip() {
    let formats = [
        InstructionFormat::R { opcode: 0b0110011, rd: 5, funct3: 0, rs1: 6, rs2: 7, funct7: 0x20 },
        InstructionFormat::I { opcode: 0b0010011, rd: 3, funct3: 0, rs1: 3, imm: -1000 },
        InstructionFormat::S { opcode: 0b0100011, funct3: 3, rs1: 2, rs2: 1, imm: -8 },
        InstructionFormat::B { opcode: 0b1100011, funct3: 1, rs1: 10, rs2: 0, imm: -4096 },
        InstructionFormat::U { opcode: 0b0010111, rd: 30, imm: -0x8_0000 },
        InstructionFormat::J { opcode: 0b1101111, rd: 1, imm: 0xF_FFFE },
    ];
    for f in formats.iter() {
        let w = f.encode();
        assert_eq!(Instruction::decode_32(w), Ok(*f));
    }
    assert_eq!(
        InstructionFormat::I { opcode: 0b0010011, rd: 2, funct3: 0, rs1: 1, imm: 2000 }.encode(),
        0x7d008113
    );
}

#[test]
fn ins_reserved_fields_are_decoding_errors() {
    // OP with funct7 0x7f, LOAD with funct3 7, BRANCH with funct3 2, SRLI with a reserved funct6
    for w in [0xFE00_0033u32, 0x0000_7003, 0x0000_2063, 0x0800_5013] {
        assert_eq!(
            Instruction::decode_32(w),
            Err(Interrupt::InstructionDecodingError(Instruction::IRV32(w)))
        );
    }
    // SRAI is not reserved
    assert!(Instruction::decode_32(0x4000_5013).is_ok());
}
