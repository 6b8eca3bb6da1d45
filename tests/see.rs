use rriscv::bus::{Dev, DynBus};
use rriscv::hart::Hart;
use rriscv::irq::Interrupt;
use rriscv::ram::Ram;
use rriscv::see::{self, SbiError};

const ECALL: [u8; 4] = [0x73, 0x00, 0x00, 0x00];

fn hart_with_ecall() -> Hart {
    let mut ram = Ram::with_size(0x100);
    ram.write(0, ECALL.to_vec()).unwrap();
    let mut bus = DynBus::new();
    bus.map(Dev::Ram(ram), 0x8000_0000..0x8000_0100);
    Hart::new(0, 0x8000_0000, bus)
}

#[test]
fn sbi_spec_version() {
    let mut m = hart_with_ecall();
    m.set_register(see::EID, 0x10);
    m.set_register(see::FID, 0);
    m.tick().unwrap();
    assert_eq!(m.get_register(see::ARG0), 0);
    assert_eq!(m.get_register(see::ARG1), (1 << 24) | 0);
    assert_eq!(m.pc, 0x8000_0004);
}

#[test]
fn sbi_probe_and_ids() {
    assert_eq!(see::sbi_probe_extension(0x10), Ok(1));
    assert_eq!(see::sbi_probe_extension(0x4321), Ok(0));
    assert_eq!(see::sbi_get_sbi_impl_id(), Ok(0xFFFF_FFFF));
    assert_eq!(see::sbi_get_sbi_impl_version(), Ok(1));
    assert_eq!(see::sbi_get_mvendorid(), Ok(0));
    assert_eq!(see::sbi_get_marchid(), Ok(1));
    assert_eq!(see::sbi_get_mimpid(), Ok(1));
    assert_eq!(see::sbi_get_spec_version(), Ok(0x0100_0000));
}

#[test]
fn sbi_unknown_call_is_not_supported() {
    let mut m = hart_with_ecall();
    m.set_register(see::EID, 0x1234_5678);
    m.set_register(see::FID, 3);
    m.tick().unwrap();
    assert_eq!(m.get_register(see::ARG0) as i64, -2);
    assert_eq!(SbiError::NotSupported.code(), -2);
    assert_eq!(SbiError::InvalidParam.code(), -3);
}

#[test]
fn sbi_console_putchar_and_getchar() {
    let mut m = hart_with_ecall();
    m.set_register(see::EID, 0x01);
    m.set_register(see::ARG0, 0x141);
    m.tick().unwrap();
    assert_eq!(m.console_out, vec![0x41]);
    assert_eq!(m.get_register(see::ARG0), 0);

    let mut n = hart_with_ecall();
    n.console_in.push(b'q');
    n.set_register(see::EID, 0x02);
    n.tick().unwrap();
    assert_eq!(n.get_register(see::ARG0), b'q' as u64);
    assert!(n.console_in.is_empty());
}

#[test]
fn sbi_shutdown_stops_the_hart() {
    let mut m = hart_with_ecall();
    m.set_register(see::EID, 0x08);
    m.tick().unwrap();
    assert_eq!(m.tick(), Err(Interrupt::Halt));
}

#[test]
fn sbi_system_reset_kinds() {
    let mut m = hart_with_ecall();
    m.set_register(see::EID, 0x5352_5354);
    m.set_register(see::FID, 0);
    m.set_register(see::ARG0, 1);
    m.set_register(5, 77);
    m.tick().unwrap();
    assert_eq!(m.pc, 0x8000_0000);
    assert_eq!(m.get_register(5), 0);

    let mut n = hart_with_ecall();
    assert_eq!(see::sbi_system_reset(&mut n, 0, 2), Err(SbiError::InvalidParam));
    assert_eq!(see::sbi_system_reset(&mut n, 3, 0), Err(SbiError::NotSupported));
    assert_eq!(see::sbi_system_reset(&mut n, 0, 0xE000_0001), Ok(0));
    assert!(n.stop);
}

#[test]
fn sbi_call_reports_failure() {
    let mut m = hart_with_ecall();
    m.set_register(see::EID, 0x05);
    assert_eq!(see::call(&mut m), Err(Interrupt::Unimplemented));
    assert_eq!(m.get_register(see::ARG0) as i64, -2);
    m.set_register(see::EID, 0x10);
    m.set_register(see::FID, 3);
    m.set_register(see::ARG0, 0x5352_5354);
    assert_eq!(see::call_0_2(&mut m), Ok(1));
    m.set_register(see::EID, 0x08);
    assert_eq!(see::call_0_1(&mut m), Ok(0));
    see::ebreak(&mut m);
    assert!(m.stop);
}

#[test]
fn sbi_reset_with_bad_reason_is_invalid_param() {
    let mut m = hart_with_ecall();
    m.set_register(see::EID, 0x5352_5354);
    m.set_register(see::FID, 0);
    m.set_register(see::ARG0, 0);
    m.set_register(see::ARG1, 7);
    m.tick().unwrap();
    assert_eq!(m.get_register(see::ARG0) as i64, -3);
    assert!(m.tick().is_ok());
}
