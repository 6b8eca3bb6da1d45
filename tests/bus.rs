use rriscv::bus::{Dev, DynBus};
use rriscv::device::Device;
use rriscv::htif::Htif;
use rriscv::irq::Interrupt;
use rriscv::ram::Ram;

#[test]
fn bus_basic() {
    let mut bus = DynBus::new();
    let err = bus.write_word(0x0, 0x0);
    assert_eq!(err.is_ok(), false, "no device should error on write");
}

#[test]
fn bus_ram() {
    let ram = Ram::new();
    let mut bus = DynBus::new();
    bus.map(Dev::Ram(ram), 0..0x2000);

    let err = bus.write_word(0x0, 0x0);
    assert_eq!(err.is_ok(), true, "ram should write");
}

#[test]
fn bus_htif() {
    let htif = Htif::new();
    let mut bus = DynBus::new();
    bus.map(Dev::Htif(htif), 0..50);

    let err = bus.write_word(0x0, 0x0);
    assert_eq!(err.is_ok(), false, "should shut down");
}

#[test]
fn dynbus_basic() {
    let mut bus = DynBus::new();
    let err = bus.write_word(0x0, 0x0);
    assert_eq!(err.is_ok(), false, "no device should error on write");
}

#[test]
fn dynbus_ram() {
    let ram = Ram::new();
    let mut bus = DynBus::new();
    bus.map(Dev::Ram(ram), 0..0x2000);

    let err = bus.write_word(0x0, 0x0);
    assert_eq!(err.is_ok(), true, "ram should write");
}

#[test]
fn dynbus_htif() {
    let htif = Htif::new();
    let mut bus = DynBus::new();
    bus.map(Dev::Htif(htif), 0..50);

    let err = bus.write_word(0x0, 0x0);
    assert_eq!(err.is_ok(), false, "should shut down");
}

#[test]
fn bus_unmapped_address_is_reported() {
    let mut bus = DynBus::new();
    assert_eq!(bus.read_word(0x1234), Err(Interrupt::Unmapped(0x1234)));
}

#[test]
fn bus_htif_write_halts() {
    let mut bus = DynBus::new();
    bus.map(Dev::Htif(Htif::new()), 0..50);
    assert_eq!(bus.write_word(0x0, 1), Err(Interrupt::Halt));
    assert_eq!(bus.read_word(0x4), Err(Interrupt::MemoryFault(0x4)));
}

#[test]
fn bus_routes_by_offset() {
    let mut bus = DynBus::new();
    assert!(bus.map(Dev::Ram(Ram::with_size(0x100)), 0x1000..0x1100));
    bus.write_word(0x1010, 0xcafe_f00d).unwrap();
    assert_eq!(bus.read_word(0x1010), Ok(0xcafe_f00d));
    assert_eq!(bus.read_byte(0x1010), Ok(0x0d));
    // past the end of the mapping
    assert_eq!(bus.read_byte(0x1100), Err(Interrupt::Unmapped(0x1100)));
}

#[test]
fn bus_refuses_overlapping_ranges() {
    let mut bus = DynBus::new();
    assert!(bus.map(Dev::Ram(Ram::with_size(0x100)), 0x1000..0x1100));
    assert!(!bus.map(Dev::Ram(Ram::with_size(0x100)), 0x10f0..0x11f0));
    assert!(!bus.map(Dev::Ram(Ram::with_size(0x100)), 0x2000..0x2000));
    assert!(bus.map(Dev::Ram(Ram::with_size(0x100)), 0x1100..0x1200));
}

#[test]
fn bus_bulk_read_and_write() {
    let mut bus = DynBus::new();
    bus.map(Dev::Ram(Ram::with_size(0x100)), 0..0x100);
    bus.write(0x10, &[1, 2, 3, 4]).unwrap();
    let mut out = [0u8; 4];
    bus.read(0x10, &mut out).unwrap();
    assert_eq!(out, [1, 2, 3, 4]);
    let mut far = [0u8; 2];
    assert_eq!(bus.read(0xff, &mut far), Err(Interrupt::Unmapped(0x100)));
}

#[test]
fn bus_bulk_write_stops_at_unmapped_byte() {
    let mut bus = DynBus::new();
    bus.map(Dev::Ram(Ram::with_size(0x100)), 0..0x100);
    assert_eq!(bus.write(0xfe, &[7, 8, 9]), Err(Interrupt::Unmapped(0x100)));
    assert_eq!(bus.read_byte(0xfe), Ok(7));
    assert_eq!(bus.read_byte(0xff), Ok(8));
}
