use rriscv::bus::{Dev, DynBus};
use rriscv::clint::{pending_interrupt, Clint, InterruptType, CLINT_BASE};
use rriscv::csr::{MCAUSE, MEPC, MIE, MSTATUS, MTVEC};
use rriscv::device::Device;
use rriscv::hart::{Event, Hart};
use rriscv::irq::Interrupt;
use rriscv::plic::{Plic, PLIC_BASE};
use rriscv::ram::Ram;
use rriscv::rtc::Rtc;
use rriscv::uart::Uart8250;

const RTC_BASE: usize = 0x0300_0000;
const UART_BASE: usize = 0x1000_0000;

fn platform() -> DynBus {
    let mut bus = DynBus::new();
    bus.map(Dev::Ram(Ram::with_size(0x1_0000)), 0x8000_0000..0x8001_0000);
    bus.map(Dev::Clint(Clint::new(RTC_BASE)), CLINT_BASE..CLINT_BASE + 0x1_0000);
    bus.map(Dev::Rtc(Rtc::new()), RTC_BASE..RTC_BASE + 0x10);
    bus.map(Dev::Plic(Plic::new()), PLIC_BASE..PLIC_BASE + 0x60_0000);
    bus.map(Dev::Uart(Uart8250::new()), UART_BASE..UART_BASE + 0x10);
    bus
}

#[test]
fn pending_interrupt_priority_order() {
    assert_eq!(pending_interrupt(0, u64::MAX), None);
    assert_eq!(pending_interrupt(0x888, u64::MAX), Some(InterruptType::MEIP));
    assert_eq!(pending_interrupt(0x88, u64::MAX), Some(InterruptType::MSIP));
    assert_eq!(pending_interrupt(0x80, u64::MAX), Some(InterruptType::MTIP));
    assert_eq!(pending_interrupt(0x222, u64::MAX), Some(InterruptType::SEIP));
    assert_eq!(pending_interrupt(0x888, 0x80), Some(InterruptType::MTIP));
    assert_eq!(pending_interrupt(0x11, u64::MAX), Some(InterruptType::USIP));
    assert_eq!(pending_interrupt(0x10, u64::MAX), Some(InterruptType::UTIP));
    assert_eq!(InterruptType::MEIP.bit(), 11);
}

#[test]
fn rtc_halves_and_alignment() {
    let mut rtc = Rtc::new();
    assert_eq!(rtc.read_double(0), Ok(u64::MAX));
    rtc.write_word(0, 5).unwrap();
    rtc.write_word(4, 1).unwrap();
    assert_eq!(rtc.read_double(0), Ok(0x1_0000_0005));
    assert_eq!(rtc.read_word(4), Ok(1));
    assert_eq!(rtc.read_byte(0), Err(Interrupt::Unaligned(0)));
    assert_eq!(rtc.write_double(0x10, 0), Err(Interrupt::MemoryFault(0x10)));
    let t0 = rtc.get_time();
    let t1 = rtc.get_time();
    assert!(t1 >= t0);
    rtc.set_timer(0);
    assert_eq!(rtc.get_timer(), 0);
    assert!(rtc.timer_pending());
}

#[test]
fn clint_forwards_timer_registers() {
    let mut bus = platform();
    bus.write_double(CLINT_BASE + 0x4000, 1234).unwrap();
    assert_eq!(bus.read_double(RTC_BASE), Ok(1234));
    assert_eq!(bus.read_double(CLINT_BASE + 0x4000), Ok(1234));
    assert!(bus.read_double(CLINT_BASE + 0xbff8).is_ok());
    bus.write_word(CLINT_BASE, 1).unwrap();
    assert_eq!(bus.read_word(CLINT_BASE), Ok(1));
    assert!(bus.software_pending());
    bus.write_word(CLINT_BASE, 0).unwrap();
    assert!(!bus.software_pending());
    assert_eq!(bus.read_half(CLINT_BASE), Err(Interrupt::Unimplemented));
}

#[test]
fn plic_claims_highest_priority() {
    let mut plic = Plic::new();
    plic.set_source_priority(1, 1);
    plic.set_source_priority(2, 3);
    plic.set_source_enabled(0, 0, 0b110);
    plic.fire_interrupt(1);
    plic.fire_interrupt(2);
    assert!(plic.has_claimable(0));
    assert_eq!(plic.claim_interrupt(0), 2);
    assert_eq!(plic.claim_interrupt(0), 1);
    assert_eq!(plic.claim_interrupt(0), 0);
    plic.complete_interrupt(0, 1);
    assert!(!plic.has_claimable(0));
    assert_eq!(plic.get_source_priority(2), 3);
    assert_eq!(plic.get_source_enabled(0, 0), 0b110);
}

#[test]
fn plic_threshold_masks() {
    let mut plic = Plic::new();
    plic.set_source_priority(3, 2);
    plic.set_source_enabled(1, 0, 0b1000);
    plic.set_priority_threshold(1, 2);
    plic.fire_interrupt(3);
    assert_eq!(plic.get_priority_threshold(1), 2);
    assert_eq!(plic.claim_interrupt(1), 0);
    plic.set_priority_threshold(1, 1);
    assert_eq!(plic.claim_interrupt(1), 3);
}

#[test]
fn plic_registers() {
    let mut plic = Plic::new();
    plic.write_word(4 * 5, 7).unwrap();
    assert_eq!(plic.read_word(4 * 5), Ok(7));
    plic.write_word(0x2000 + 0x80, 1 << 5).unwrap();
    assert_eq!(plic.read_word(0x2080), Ok(1 << 5));
    plic.fire_interrupt(5);
    assert_eq!(plic.read_word(0x1000), Ok(1 << 5));
    plic.write_word(0x20_1000, 0).unwrap();
    assert_eq!(plic.read_word(0x20_1004), Ok(5));
    assert_eq!(plic.read_word(0x1000), Ok(0));
    assert_eq!(plic.read_byte(0), Err(Interrupt::Unimplemented));
}

#[test]
fn uart_transmits_and_receives() {
    let mut bus = platform();
    bus.write_byte(UART_BASE, b'h').unwrap();
    bus.write_byte(UART_BASE, b'i').unwrap();
    assert_eq!(bus.take_console_output(), b"hi".to_vec());
    assert_eq!(bus.read_byte(UART_BASE + 5), Ok(0x60));
    bus.push_console_input(b'x');
    assert_eq!(bus.read_byte(UART_BASE + 5), Ok(0x61));
    assert_eq!(bus.read_byte(UART_BASE), Ok(b'x'));
    assert_eq!(bus.read_byte(UART_BASE + 5), Ok(0x60));
    assert_eq!(bus.write_word(UART_BASE, 0), Err(Interrupt::Unimplemented));
}

#[test]
fn uart_registers() {
    let mut uart = Uart8250::new();
    uart.write_byte(1, 0).unwrap();
    assert_eq!(uart.read_byte(1), Ok(0));
    uart.write_byte(3, 0x83).unwrap();
    assert_eq!(uart.read_byte(3), Ok(0x83));
    assert_eq!(uart.write_byte(7, 0), Err(Interrupt::Unimplemented));
    uart.push_input(7);
    assert_eq!(uart.read_byte(0), Ok(7));
    assert_eq!(uart.read_byte(0), Ok(0));
}

#[test]
fn software_interrupt_is_taken() {
    let mut bus = platform();
    // an instruction to fetch, never reached
    bus.write_word(0x8000_0000, 0x00000013).unwrap();
    let mut m = Hart::new(0, 0x8000_0000, bus);
    m.csr.write_any(MTVEC, 0x8000_0100);
    m.csr.write_any(MIE, 0x8);
    m.bus.write_word(CLINT_BASE, 1).unwrap();
    // interrupts are off in mstatus: the instruction retires
    assert_eq!(m.step(), Ok(Event::Retired));
    m.csr.write_any(MSTATUS, 0x8);
    assert_eq!(m.step(), Ok(Event::Interrupt(0x8000_0000_0000_0003)));
    assert_eq!(m.get_csr(MEPC), 0x8000_0004);
    assert_eq!(m.get_csr(MCAUSE), 0x8000_0000_0000_0003);
    assert_eq!(m.pc, 0x8000_0100);
    assert_eq!(m.get_csr(MSTATUS) & 0x88, 0x80);
}

#[test]
fn vectored_interrupt_target() {
    let mut bus = platform();
    bus.write_word(0x8000_0000, 0x00000013).unwrap();
    let mut m = Hart::new(0, 0x8000_0000, bus);
    m.csr.write_any(MTVEC, 0x8000_0101);
    m.csr.write_any(MIE, 0x8);
    m.csr.write_any(MSTATUS, 0x8);
    m.bus.write_word(CLINT_BASE, 1).unwrap();
    assert_eq!(m.step(), Ok(Event::Interrupt(0x8000_0000_0000_0003)));
    assert_eq!(m.pc, 0x8000_010c);
}
