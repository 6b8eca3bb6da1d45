use rriscv::device::Device;
use rriscv::irq::Interrupt;
use rriscv::ram::Ram;
use rriscv::rom::Rom;

#[test]
fn ram_init_read() {
    let mut ram = Ram::new();
    ram.write(0, vec![0x13, 0x81, 0x00, 0x7d]);
    let i = ram.read_word(0).expect("read");

    assert_eq!(i, 0x7d008113, "x1 mismatch");
}

#[test]
fn write_read_cycle_u16() {
    let mut ram = Ram::new();
    ram.write_word(0, 0xdead).expect("written");
    let i = ram.read_half(0).expect("read");

    assert_eq!(i, 0xdead, "dead beef");
}

#[test]
fn write_read_cycle_u32() {
    let mut ram = Ram::new();
    ram.write_word(0, 0xdeadbeef).expect("written");
    let i = ram.read_word(0).expect("read");

    assert_eq!(i, 0xdeadbeef, "dead beef");
}

#[test]
fn write_read_cycle_u64() {
    let mut ram = Ram::new();
    ram.write_double(0, 0xdeadbeef_11223344).expect("written");
    let i = ram.read_double(0).expect("read");

    assert_eq!(i, 0xdeadbeef_11223344, "dead beef");
}

#[test]
fn rom_init_read() {
    let mut ram = Rom::new(vec![0x13, 0x81, 0x00, 0x7d]);
    let i = ram.read_word(0).expect("read");

    assert_eq!(i, 0x7d008113, "x1 mismatch");
}

#[test]
fn ram_is_little_endian_and_unaligned() {
    let mut ram = Ram::with_size(16);
    ram.write_double(3, 0x0102_0304_0506_0708).unwrap();
    assert_eq!(ram.read_byte(3), Ok(0x08));
    assert_eq!(ram.read_byte(10), Ok(0x01));
    assert_eq!(ram.read_half(4), Ok(0x0607));
    assert_eq!(ram.read_word(5), Ok(0x0304_0506));
}

#[test]
fn ram_bounds_fault() {
    let mut ram = Ram::with_size(16);
    assert_eq!(ram.read_word(13), Err(Interrupt::MemoryFault(13)));
    assert_eq!(ram.write_double(9, 1), Err(Interrupt::MemoryFault(9)));
    assert_eq!(ram.read_double(8), Ok(0));
    assert_eq!(ram.write(14, vec![1, 2, 3]), None);
    assert_eq!(ram.write(13, vec![1, 2, 3]), Some(()));
    assert_eq!(ram.size(), 16);
}

#[test]
fn ram_default_size() {
    assert_eq!(Ram::new().size(), 128 * 1024 * 1024);
}

#[test]
fn rom_rejects_writes_and_reads_all_bytes() {
    let mut rom = Rom::new(vec![1, 2, 3, 4, 5, 6, 7, 8]);
    assert_eq!(rom.write_byte(0, 9), Err(Interrupt::MemoryFault(0)));
    assert_eq!(rom.read_double(0), Ok(0x0807_0605_0403_0201));
    assert_eq!(rom.read_word(6), Err(Interrupt::MemoryFault(6)));
    assert_eq!(rom.len(), 8);
    assert!(!rom.is_empty());
    assert!(Rom::new(vec![]).is_empty());
}
