use rriscv::machine::Machine;
use rriscv::ram::Ram;

fn machine(code: Vec<u8>) -> Machine {
    let mut ram = Ram::new();
    ram.write(0, code).expect("fits");
    Machine::new(ram)
}

#[test]
fn machine_addi() {
    let mut m = machine(vec![0x13, 0x81, 0x00, 0x7d]);
    m.tick().expect("tick");
    assert_eq!(m.get_register(2), 2000, "x1 mismatch");
}

#[test]
fn machine_addi_neg() {
    let mut m = machine(vec![0x93, 0x01, 0x81, 0xc1]);
    m.tick().expect("tick");
    assert_eq!(m.get_register(3) as i32, -1000, "x1 mismatch");
}

#[test]
fn machine_it_works() {
    let mut m = machine(vec![
        // li	ra,1000
        0x93, 0x00, 0x80, 0x3e,
        // addi	sp,ra,2000
        0x13, 0x81, 0x00, 0x7d,
        // addi	gp,sp,-1000
        0x93, 0x01, 0x81, 0xc1,
        // addi	tp,gp,-2000
        0x13, 0x82, 0x01, 0x83,
        // addi	t0,tp,1000
        0x93, 0x02, 0x82, 0x3e,
        // li	t1,64
        0x13, 0x03, 0x00, 0x04,
        // addi	t1,t1,4
        0x13, 0x03, 0x43, 0x00,
    ]);
    for _ in 0..7 {
        m.tick().expect("tick");
    }
    assert_eq!(m.get_register(0), 0, "zero register must be zero");
    assert_eq!(m.get_register(1), 1000, "x1 mismatch");
    assert_eq!(m.get_register(2), 3000, "x2 mismatch");
    assert_eq!(m.get_register(3), 2000, "x3 mismatch");
    assert_eq!(m.get_register(4), 0, "x4 mismatch");
    assert_eq!(m.get_register(5), 1000, "x5 mismatch");
    assert_eq!(m.get_register(6), 0x40 + 4, "deadbeef");
}

#[test]
fn machine_fetch_reads_parcel() {
    let mut m = machine(vec![0x13, 0x81, 0x00, 0x7d]);
    assert_eq!(
        m.fetch_instruction(),
        Ok(rriscv::ins::Instruction::IRV32(0x7d008113))
    );
    m.set_register(5, 9);
    assert_eq!(m.get_register(5), 9);
}
