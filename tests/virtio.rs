use rriscv::bus::{Dev, DynBus};
use rriscv::device::Device;
use rriscv::plic::{Plic, PLIC_BASE};
use rriscv::ram::Ram;
use rriscv::virtio::BlkDevice;

const BLK: usize = 0x1000_1000;
const MEM: usize = 0x8000_0000;

fn disk() -> Vec<u8> {
    let mut d = b"Hello".to_vec();
    d.resize(1024, 0);
    d
}

fn machine() -> DynBus {
    let mut bus = DynBus::new();
    bus.map(Dev::Ram(Ram::with_size(0x1_0000)), MEM..MEM + 0x1_0000);
    bus.map(Dev::Blk(BlkDevice::new(disk(), 1)), BLK..BLK + 0x1000);
    bus.map(Dev::Plic(Plic::new()), PLIC_BASE..PLIC_BASE + 0x60_0000);
    bus
}

fn put_desc(bus: &mut DynBus, table: usize, i: usize, addr: u64, len: u32, flags: u16, next: u16) {
    let base = table + 16 * i;
    bus.write_double(base, addr).unwrap();
    bus.write_word(base + 8, len).unwrap();
    bus.write_half(base + 12, flags).unwrap();
    bus.write_half(base + 14, next).unwrap();
}

fn setup_queue(bus: &mut DynBus) {
    bus.write_word(BLK + 0x030, 0).unwrap();
    bus.write_word(BLK + 0x038, 8).unwrap();
    bus.write_word(BLK + 0x080, MEM as u32).unwrap();
    bus.write_word(BLK + 0x084, 0).unwrap();
    bus.write_word(BLK + 0x090, (MEM + 0x100) as u32).unwrap();
    bus.write_word(BLK + 0x094, 0).unwrap();
    bus.write_word(BLK + 0x0a0, (MEM + 0x200) as u32).unwrap();
    bus.write_word(BLK + 0x0a4, 0).unwrap();
    bus.write_word(BLK + 0x044, 1).unwrap();
}

#[test]
fn virtio_identity() {
    let mut bus = machine();
    assert_eq!(bus.read_word(BLK), Ok(0x7472_6976));
    assert_eq!(bus.read_word(BLK + 4), Ok(2));
    assert_eq!(bus.read_word(BLK + 8), Ok(2));
    assert_eq!(bus.read_word(BLK + 0xc), Ok(0x1af4));
    // two sectors of image
    assert_eq!(bus.read_double(BLK + 0x100), Ok(2));
    assert_eq!(bus.read_word(BLK + 0x100 + 20), Ok(512));
}

#[test]
fn virtio_status_negotiation() {
    let mut bus = machine();
    bus.write_word(BLK + 0x070, 1).unwrap();
    bus.write_word(BLK + 0x070, 2).unwrap();
    assert_eq!(bus.read_word(BLK + 0x070), Ok(3));
    bus.write_word(BLK + 0x024, 1).unwrap();
    bus.write_word(BLK + 0x020, 1).unwrap();
    bus.write_word(BLK + 0x070, 8).unwrap();
    assert_eq!(bus.read_word(BLK + 0x070), Ok(3 | 8));
    bus.write_word(BLK + 0x070, 0).unwrap();
    assert_eq!(bus.read_word(BLK + 0x070), Ok(0));
    // a feature the device does not offer
    bus.write_word(BLK + 0x024, 0).unwrap();
    bus.write_word(BLK + 0x020, 1 << 10).unwrap();
    bus.write_word(BLK + 0x070, 8).unwrap();
    assert_eq!(bus.read_word(BLK + 0x070), Ok(8 | 128));
}

#[test]
fn virtio_block_read_request() {
    let mut bus = machine();
    let (hdr, buf, status) = (MEM + 0x1000, MEM + 0x2000, MEM + 0x3000);
    put_desc(&mut bus, MEM, 0, hdr as u64, 16, 1, 1);
    put_desc(&mut bus, MEM, 1, buf as u64, 5, 1 | 2, 2);
    put_desc(&mut bus, MEM, 2, status as u64, 1, 2, 0);
    // request header: IN, sector 0
    bus.write_word(hdr, 0).unwrap();
    bus.write_double(hdr + 8, 0).unwrap();
    bus.write_byte(status, 0xff).unwrap();
    // available ring: one entry, head 0
    bus.write_half(MEM + 0x100 + 4, 0).unwrap();
    bus.write_half(MEM + 0x100 + 2, 1).unwrap();
    setup_queue(&mut bus);
    bus.write_word(BLK + 0x050, 0).unwrap();

    let mut got = [0u8; 5];
    bus.read(buf, &mut got).unwrap();
    assert_eq!(&got, &[0x48, 0x65, 0x6C, 0x6C, 0x6F]);
    assert_eq!(bus.read_byte(status), Ok(0));
    assert_eq!(bus.read_half(MEM + 0x200 + 2), Ok(1));
    assert_eq!(bus.read_word(MEM + 0x200 + 4), Ok(0));
    assert_eq!(bus.read_word(MEM + 0x200 + 8), Ok(6));
    assert_eq!(bus.read_word(BLK + 0x060), Ok(1));
    // the PLIC latched source 1
    assert_eq!(bus.read_word(PLIC_BASE + 0x1000), Ok(1 << 1));
}

#[test]
fn virtio_block_write_request() {
    let mut bus = machine();
    let (hdr, buf, status) = (MEM + 0x1000, MEM + 0x2000, MEM + 0x3000);
    put_desc(&mut bus, MEM, 0, hdr as u64, 16, 1, 1);
    put_desc(&mut bus, MEM, 1, buf as u64, 3, 1, 2);
    put_desc(&mut bus, MEM, 2, status as u64, 1, 2, 0);
    bus.write_word(hdr, 1).unwrap();
    bus.write_double(hdr + 8, 1).unwrap();
    bus.write(buf, b"abc").unwrap();
    bus.write_half(MEM + 0x100 + 4, 0).unwrap();
    bus.write_half(MEM + 0x100 + 2, 1).unwrap();
    setup_queue(&mut bus);
    bus.write_word(BLK + 0x050, 0).unwrap();
    assert_eq!(bus.read_byte(status), Ok(0));
    match &bus.devices[1].dev {
        Dev::Blk(b) => assert_eq!(&b.disk[512..515], b"abc"),
        _ => panic!("not a block device"),
    }
    assert_eq!(bus.read_half(MEM + 0x200 + 2), Ok(1));
}

#[test]
fn virtio_read_past_end_reports_error() {
    let mut bus = machine();
    let (hdr, buf, status) = (MEM + 0x1000, MEM + 0x2000, MEM + 0x3000);
    put_desc(&mut bus, MEM, 0, hdr as u64, 16, 1, 1);
    put_desc(&mut bus, MEM, 1, buf as u64, 5, 1 | 2, 2);
    put_desc(&mut bus, MEM, 2, status as u64, 1, 2, 0);
    bus.write_word(hdr, 0).unwrap();
    bus.write_double(hdr + 8, 2).unwrap();
    bus.write_half(MEM + 0x100 + 4, 0).unwrap();
    bus.write_half(MEM + 0x100 + 2, 1).unwrap();
    setup_queue(&mut bus);
    bus.write_word(BLK + 0x050, 0).unwrap();
    assert_eq!(bus.read_byte(status), Ok(1));
}

#[test]
fn blk_load_and_store() {
    let mut blk = BlkDevice::new_block_device(disk());
    assert_eq!(blk.load(0, 5), Some(b"Hello".to_vec()));
    assert_eq!(blk.load(1020, 5), None);
    assert!(blk.store(1, &b"ELLO".to_vec()));
    assert_eq!(blk.load(0, 5), Some(b"HELLO".to_vec()));
    assert!(!blk.store(1022, &vec![1, 2, 3]));
    assert_eq!(blk.irq, 1);
}
