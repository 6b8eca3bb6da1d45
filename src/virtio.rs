use vstd::prelude::*;

use crate::device::Device;
use crate::irq::Interrupt;

verus! {

pub const MAGIC_VALUE: u32 = 0x7472_6976;
pub const VERSION: u32 = 2;
pub const DEVICE_ID_BLOCK: u32 = 2;
pub const VENDOR_ID: u32 = 0x1af4;
pub const MAX_QUEUES: usize = 16;
pub const QUEUE_SIZE_MAX: u32 = 16;
pub const SECTOR_SIZE: usize = 512;

// Register offsets of the MMIO transport.
pub const REG_MAGIC_VALUE: usize = 0x000;
pub const REG_VERSION: usize = 0x004;
pub const REG_DEVICE_ID: usize = 0x008;
pub const REG_VENDOR_ID: usize = 0x00c;
pub const REG_DEVICE_FEATURES: usize = 0x010;
pub const REG_DEVICE_FEATURES_SEL: usize = 0x014;
pub const REG_DRIVER_FEATURES: usize = 0x020;
pub const REG_DRIVER_FEATURES_SEL: usize = 0x024;
pub const REG_QUEUE_SEL: usize = 0x030;
pub const REG_QUEUE_SIZE_MAX: usize = 0x034;
pub const REG_QUEUE_SIZE: usize = 0x038;
pub const REG_QUEUE_READY: usize = 0x044;
pub const REG_QUEUE_NOTIFY: usize = 0x050;
pub const REG_INTERRUPT_STATUS: usize = 0x060;
pub const REG_INTERRUPT_ACK: usize = 0x064;
pub const REG_STATUS: usize = 0x070;
pub const REG_QUEUE_DESC_LOW: usize = 0x080;
pub const REG_QUEUE_DESC_HIGH: usize = 0x084;
pub const REG_QUEUE_DRIVER_LOW: usize = 0x090;
pub const REG_QUEUE_DRIVER_HIGH: usize = 0x094;
pub const REG_QUEUE_DEVICE_LOW: usize = 0x0a0;
pub const REG_QUEUE_DEVICE_HIGH: usize = 0x0a4;
pub const REG_CONFIG_GENERATION: usize = 0x0fc;
pub const REG_CONFIG: usize = 0x100;

// Device status bits.
pub const STATUS_ACKNOWLEDGE: u32 = 1;
pub const STATUS_DRIVER: u32 = 2;
pub const STATUS_DRIVER_OK: u32 = 4;
pub const STATUS_FEATURES_OK: u32 = 8;
pub const STATUS_DEVICE_NEEDS_RESET: u32 = 64;
pub const STATUS_FAILED: u32 = 128;

// Feature bits.
pub const F_SIZE_MAX: u64 = 1;
pub const F_SEG_MAX: u64 = 2;
pub const F_BLK_SIZE: u64 = 6;
pub const F_VERSION_1: u64 = 32;

/// The features the device offers: VERSION_1, SIZE_MAX, SEG_MAX, BLK_SIZE.
pub const DEVICE_FEATURES: u64 = 0x1_0000_0046;

// Descriptor flags.
pub const DESC_NEXT: u16 = 1;
pub const DESC_WRITE: u16 = 2;
pub const DESC_INDIRECT: u16 = 4;

// Request types and request status values.
pub const REQ_IN: u32 = 0;
pub const REQ_OUT: u32 = 1;
pub const BLK_S_OK: u8 = 0;
pub const BLK_S_IOERR: u8 = 1;
pub const BLK_S_UNSUPP: u8 = 2;

/// A virtqueue as the driver configured it, and the next entry of its
/// available ring that the device has not yet served.
#[derive(Clone, Copy, Debug, PartialEq, Eq, Structural)]
pub struct Queue {
    pub ready: bool,
    pub size: u32,
    pub desc: u64,
    pub driver: u64,
    pub device: u64,
    pub last_avail: u16,
}

pub open spec fn empty_queue() -> Queue {
    Queue { ready: false, size: 0, desc: 0, driver: 0, device: 0, last_avail: 0 }
}

/// A descriptor of a virtqueue's descriptor table.
#[derive(Clone, Copy, Debug, PartialEq, Eq, Structural)]
pub struct Desc {
    pub addr: u64,
    pub len: u32,
    pub flags: u16,
    pub next: u16,
}

/// A VirtIO block device over the MMIO transport, backed by a disk image held
/// in memory. A write to QueueNotify is recorded in `notify`; the bus then
/// serves the queue, since that needs access to guest memory.
pub struct BlkDevice {
    pub driver_features: u64,
    pub device_features_sel: u32,
    pub driver_features_sel: u32,
    pub status: u32,
    pub queue_sel: u32,
    pub queues: Vec<Queue>,
    pub interrupt_status: u32,
    pub disk: Vec<u8>,
    pub irq: usize,
    pub notify: Option<u32>,
}

pub open spec fn set_low(v: u64, lo: u32) -> u64 {
    (v & 0xffff_ffff_0000_0000) | (lo as u64)
}

pub open spec fn set_high(v: u64, hi: u32) -> u64 {
    (v & 0xffff_ffff) | ((hi as u64) << 32u64)
}

/// Whether `addr` is one of the registers of the selected queue.
pub open spec fn is_queue_reg(addr: usize) -> bool {
    addr == REG_QUEUE_SIZE || addr == REG_QUEUE_READY || addr == REG_QUEUE_DESC_LOW || addr
        == REG_QUEUE_DESC_HIGH || addr == REG_QUEUE_DRIVER_LOW || addr == REG_QUEUE_DRIVER_HIGH
        || addr == REG_QUEUE_DEVICE_LOW || addr == REG_QUEUE_DEVICE_HIGH
}

/// The selected queue after the driver writes `val` to its register `addr`;
/// a size is capped at the largest the device supports.
pub open spec fn queue_after(e: Queue, addr: usize, val: u32) -> Queue {
    if addr == REG_QUEUE_SIZE {
        Queue { size: if val > QUEUE_SIZE_MAX { QUEUE_SIZE_MAX } else { val }, ..e }
    } else if addr == REG_QUEUE_READY {
        Queue { ready: val != 0, ..e }
    } else if addr == REG_QUEUE_DESC_LOW {
        Queue { desc: set_low(e.desc, val), ..e }
    } else if addr == REG_QUEUE_DESC_HIGH {
        Queue { desc: set_high(e.desc, val), ..e }
    } else if addr == REG_QUEUE_DRIVER_LOW {
        Queue { driver: set_low(e.driver, val), ..e }
    } else if addr == REG_QUEUE_DRIVER_HIGH {
        Queue { driver: set_high(e.driver, val), ..e }
    } else if addr == REG_QUEUE_DEVICE_LOW {
        Queue { device: set_low(e.device, val), ..e }
    } else {
        Queue { device: set_high(e.device, val), ..e }
    }
}

/// Whether `addr` is a register the driver may write.
pub open spec fn is_writable(addr: usize) -> bool {
    addr == REG_DEVICE_FEATURES_SEL || addr == REG_DRIVER_FEATURES_SEL || addr
        == REG_DRIVER_FEATURES || addr == REG_STATUS || addr == REG_QUEUE_SEL || addr
        == REG_INTERRUPT_ACK || addr == REG_QUEUE_NOTIFY || is_queue_reg(addr)
}

/// Whether a write of `val` to the Status register resets the device.
pub open spec fn resets(val: u32) -> bool {
    val == 0 || val & STATUS_DEVICE_NEEDS_RESET != 0
}

/// The status after the driver writes `val` to the Status register.
pub open spec fn status_after(status: u32, driver_features: u64, val: u32) -> u32 {
    if resets(val) {
        0
    } else if val & STATUS_FEATURES_OK != 0 && driver_features & !DEVICE_FEATURES != 0 {
        status | val | STATUS_FAILED
    } else {
        status | val
    }
}

impl BlkDevice {
    pub open spec fn wf(&self) -> bool {
        self.queues@.len() == MAX_QUEUES
    }

    /// The capacity in sectors: whole sectors of the image.
    pub open spec fn capacity(&self) -> u64 {
        (self.disk@.len() / SECTOR_SIZE as nat) as u64
    }

    /// A device in its reset state over `disk`, raising PLIC source `irq`.
    pub fn new(disk: Vec<u8>, irq: usize) -> (r: BlkDevice)
        ensures
            r.wf(),
            r.disk@ == disk@,
            r.irq == irq,
            r.status == 0,
            r.notify is None,
            r.driver_features == 0,
            r.interrupt_status == 0,
            forall|q: int| 0 <= q < MAX_QUEUES ==> r.queues@[q] == empty_queue(),
    {
        let q = Queue { ready: false, size: 0, desc: 0, driver: 0, device: 0, last_avail: 0 };
        let queues = vec![q; MAX_QUEUES];
        BlkDevice {
            driver_features: 0,
            device_features_sel: 0,
            driver_features_sel: 0,
            status: 0,
            queue_sel: 0,
            queues,
            interrupt_status: 0,
            disk,
            irq,
            notify: None,
        }
    }

    /// A block device over `disk`, wired to PLIC source 1.
    pub fn new_block_device(disk: Vec<u8>) -> (r: BlkDevice)
        ensures
            r.wf(),
            r.disk@ == disk@,
            r.irq == 1,
            r.status == 0,
            r.notify is None,
            r.driver_features == 0,
            r.interrupt_status == 0,
            forall|q: int| 0 <= q < MAX_QUEUES ==> r.queues@[q] == empty_queue(),
    {
        BlkDevice::new(disk, 1)
    }

    /// The negotiation state after a write of `val` to Status: zero or
    /// DEVICE_NEEDS_RESET resets the device, other bits accumulate, and
    /// FEATURES_OK with features the device does not offer sets FAILED.
    pub fn write_status(&mut self, val: u32)
        requires
            old(self).wf(),
        ensures
            final(self).wf(),
            final(self).status == status_after(old(self).status, old(self).driver_features, val),
            final(self).disk@ == old(self).disk@,
            final(self).irq == old(self).irq,
            final(self).notify == old(self).notify,
            resets(val) ==> (forall|q: int|
                0 <= q < MAX_QUEUES ==> final(self).queues@[q] == empty_queue())
                && final(self).driver_features == 0,
            !resets(val) ==> final(self).queues@
                == old(self).queues@ && final(self).driver_features == old(self).driver_features,
    {
        if val == 0 || val & STATUS_DEVICE_NEEDS_RESET != 0 {
            self.status = 0;
            self.driver_features = 0;
            self.queue_sel = 0;
            self.interrupt_status = 0;
            let q = Queue { ready: false, size: 0, desc: 0, driver: 0, device: 0, last_avail: 0 };
            self.queues = vec![q; MAX_QUEUES];
        } else if val & STATUS_FEATURES_OK != 0 && self.driver_features & !DEVICE_FEATURES != 0 {
            self.status = self.status | val | STATUS_FAILED;
        } else {
            self.status = self.status | val;
        }
    }

    /// Hands over a pending QueueNotify and clears it.
    pub fn take_notify(&mut self) -> (r: Option<u32>)
        ensures
            r == old(self).notify,
            final(self).notify is None,
            final(self).wf() == old(self).wf(),
            final(self).queues@ == old(self).queues@,
            final(self).disk@ == old(self).disk@,
            final(self).irq == old(self).irq,
    {
        let r = self.notify;
        self.notify = None;
        r
    }

    /// Records that queue `q` has been served up to ring entry `last`, and
    /// flags a used-buffer interrupt.
    pub fn finish_queue(&mut self, q: usize, last: u16)
        requires
            old(self).wf(),
        ensures
            final(self).wf(),
            q < MAX_QUEUES ==> final(self).queues@ == old(self).queues@.update(
                q as int,
                Queue { last_avail: last, ..old(self).queues@[q as int] },
            ),
            q >= MAX_QUEUES ==> final(self).queues@ == old(self).queues@,
            final(self).interrupt_status & 1 == 1,
            final(self).disk@ == old(self).disk@,
            final(self).notify == old(self).notify,
    {
        if q < MAX_QUEUES {
            let mut e = self.queues[q];
            e.last_avail = last;
            self.queues.set(q, e);
        }
        let st = self.interrupt_status;
        let s = st | 1;
        assert(s & 1 == 1) by (bit_vector)
            requires
                s == st | 1,
        ;
        self.interrupt_status = s;
    }

    /// The `len` bytes of the image at byte `offset`; `None` past its end.
    pub fn load(&self, offset: u64, len: u32) -> (r: Option<Vec<u8>>)
        ensures
            r is Some <==> offset + len <= self.disk@.len(),
            r is Some ==> r->0@ == self.disk@.subrange(offset as int, offset + len),
    {
        if offset > self.disk.len() as u64 || (len as u64) > self.disk.len() as u64 - offset {
            return None;
        }
        let start = offset as usize;
        let mut out: Vec<u8> = Vec::new();
        let mut k: usize = 0;
        while k < len as usize
            invariant
                start + len <= self.disk@.len() <= usize::MAX,
                start == offset,
                k <= len,
                out@ == self.disk@.subrange(start as int, start + k),
            decreases len - k,
        {
            out.push(self.disk[start + k]);
            k = k + 1;
            assert(out@ =~= self.disk@.subrange(start as int, start + k));
        }
        Some(out)
    }

    /// Writes `data` into the image at byte `offset`; `false`, and nothing
    /// written, where it would pass the end.
    pub fn store(&mut self, offset: u64, data: &Vec<u8>) -> (r: bool)
        requires
            old(self).wf(),
        ensures
            final(self).wf(),
            r <==> offset + data@.len() <= old(self).disk@.len(),
            r ==> final(self).disk@ == old(self).disk@.subrange(0, offset as int) + data@
                + old(self).disk@.subrange(offset + data@.len(), old(self).disk@.len() as int),
            !r ==> final(self).disk@ == old(self).disk@,
            final(self).queues@ == old(self).queues@,
            final(self).notify == old(self).notify,
            final(self).irq == old(self).irq,
    {
        if offset > self.disk.len() as u64 || (data.len() as u64) > self.disk.len() as u64
            - offset {
            return false;
        }
        let start = offset as usize;
        let mut k: usize = 0;
        while k < data.len()
            invariant
                start + data@.len() <= self.disk@.len() <= usize::MAX,
                start == offset,
                self.disk@.len() == old(self).disk@.len(),
                self.queues@ == old(self).queues@,
                self.notify == old(self).notify,
                self.irq == old(self).irq,
                k <= data@.len(),
                forall|j: int|
                    0 <= j < self.disk@.len() && !(start <= j < start + k) ==> self.disk@[j]
                        == old(self).disk@[j],
                forall|j: int| start <= j < start + k ==> self.disk@[j] == data@[j - start],
            decreases data@.len() - k,
        {
            self.disk[start + k] = data[k];
            k = k + 1;
        }
        assert(self.disk@ =~= old(self).disk@.subrange(0, offset as int) + data@ + old(
            self,
        ).disk@.subrange(offset + data@.len(), old(self).disk@.len() as int));
        true
    }

    /// The 32-bit word of the block configuration space at `off`.
    pub fn config_word(&self, off: usize) -> (r: u32)
        ensures
            off == 0 ==> r == (self.capacity() & 0xffff_ffff) as u32,
            off == 4 ==> r == (self.capacity() >> 32u64) as u32,
            off == 8 ==> r == 0x1000,
            off == 12 ==> r == 1,
            off == 20 ==> r == SECTOR_SIZE,
    {
        let capacity = (self.disk.len() / SECTOR_SIZE) as u64;
        if off == 0 {
            (capacity & 0xffff_ffff) as u32
        } else if off == 4 {
            (capacity >> 32u64) as u32
        } else if off == 8 {
            // size_max
            0x1000
        } else if off == 12 {
            // seg_max
            1
        } else if off == 20 {
            // blk_size
            SECTOR_SIZE as u32
        } else if off == 24 {
            // physical_block_exp, alignment_offset, min_io_size
            0x0001_0000
        } else if off == 28 {
            // opt_io_size
            1
        } else if off == 32 {
            // writeback (0: write through), num_queues
            0x0001_0000
        } else {
            0
        }
    }
}

impl Device for BlkDevice {
    fn write_double(&mut self, _addr: usize, _val: u64) -> (r: Result<(), Interrupt>)
        ensures
            r == Err::<(), Interrupt>(Interrupt::Unimplemented),
            *final(self) == *old(self),
    {
        Err(Interrupt::Unimplemented)
    }

    fn write_word(&mut self, addr: usize, val: u32) -> (r: Result<(), Interrupt>)
        ensures
            old(self).wf() ==> final(self).wf(),
            r != Err::<(), Interrupt>(Interrupt::Halt),
            final(self).disk@ == old(self).disk@,
            final(self).irq == old(self).irq,
            addr == REG_QUEUE_NOTIFY && old(self).wf() ==> r is Ok && final(self).notify == Some(val),
            addr != REG_QUEUE_NOTIFY ==> final(self).notify == old(self).notify,
            addr == REG_STATUS && old(self).wf() && resets(val) ==> (forall|q: int|
                0 <= q < MAX_QUEUES ==> final(self).queues@[q] == empty_queue()) && final(self).driver_features
                == 0,
            addr == REG_STATUS && old(self).wf() && !resets(val) ==> final(self).queues@ == old(self).queues@
                && final(self).driver_features == old(self).driver_features,
            addr == REG_STATUS && old(self).wf() ==> r is Ok && final(self).status == status_after(
                old(self).status,
                old(self).driver_features,
                val,
            ),
            addr == REG_DEVICE_FEATURES_SEL && old(self).wf() ==> r is Ok
                && final(self).device_features_sel == val,
            addr == REG_DRIVER_FEATURES_SEL && old(self).wf() ==> r is Ok
                && final(self).driver_features_sel == val,
            addr == REG_DRIVER_FEATURES && old(self).wf() ==> r is Ok && final(self).driver_features
                == if old(self).driver_features_sel == 0 {
                set_low(old(self).driver_features, val)
            } else if old(self).driver_features_sel == 1 {
                set_high(old(self).driver_features, val)
            } else {
                old(self).driver_features
            },
            addr == REG_QUEUE_SEL && old(self).wf() ==> r is Ok && final(self).queue_sel == val,
            addr == REG_INTERRUPT_ACK && old(self).wf() ==> r is Ok && final(self).interrupt_status
                == old(self).interrupt_status & !val,
            is_queue_reg(addr) && old(self).wf() && old(self).queue_sel < MAX_QUEUES ==> r is Ok
                && final(self).queues@ == old(self).queues@.update(
                old(self).queue_sel as int,
                queue_after(old(self).queues@[old(self).queue_sel as int], addr, val),
            ),
            is_queue_reg(addr) && old(self).wf() && old(self).queue_sel >= MAX_QUEUES ==> r
                == Err::<(), Interrupt>(Interrupt::Unimplemented) && *final(self) == *old(self),
            !is_queue_reg(addr) && addr != REG_STATUS ==> final(self).queues@ == old(self).queues@,
            addr != REG_STATUS && addr != REG_DRIVER_FEATURES ==> final(self).driver_features == old(self).driver_features,
            addr != REG_STATUS ==> final(self).status == old(self).status,
            !is_writable(addr) ==> r == Err::<(), Interrupt>(Interrupt::Unimplemented) && *final(self)
                == *old(self),
    {
        if self.queues.len() != MAX_QUEUES {
            return Err(Interrupt::Unimplemented);
        }
        let q = self.queue_sel as usize;
        if addr == REG_DEVICE_FEATURES_SEL {
            self.device_features_sel = val;
        } else if addr == REG_DRIVER_FEATURES_SEL {
            self.driver_features_sel = val;
        } else if addr == REG_DRIVER_FEATURES {
            if self.driver_features_sel == 0 {
                self.driver_features = (self.driver_features & 0xffff_ffff_0000_0000) | (val as u64);
            } else if self.driver_features_sel == 1 {
                self.driver_features = (self.driver_features & 0xffff_ffff) | ((val as u64)
                    << 32u64);
            }
        } else if addr == REG_STATUS {
            self.write_status(val);
        } else if addr == REG_QUEUE_SEL {
            self.queue_sel = val;
        } else if addr == REG_INTERRUPT_ACK {
            self.interrupt_status = self.interrupt_status & !val;
        } else if addr == REG_QUEUE_NOTIFY {
            self.notify = Some(val);
        } else if addr == REG_QUEUE_SIZE || addr == REG_QUEUE_READY || addr == REG_QUEUE_DESC_LOW
            || addr == REG_QUEUE_DESC_HIGH || addr == REG_QUEUE_DRIVER_LOW || addr
            == REG_QUEUE_DRIVER_HIGH || addr == REG_QUEUE_DEVICE_LOW || addr
            == REG_QUEUE_DEVICE_HIGH {
            if q >= MAX_QUEUES {
                return Err(Interrupt::Unimplemented);
            }
            let mut e = self.queues[q];
            if addr == REG_QUEUE_SIZE {
                e.size = if val > QUEUE_SIZE_MAX { QUEUE_SIZE_MAX } else { val };
            } else if addr == REG_QUEUE_READY {
                e.ready = val != 0;
            } else if addr == REG_QUEUE_DESC_LOW {
                e.desc = (e.desc & 0xffff_ffff_0000_0000) | (val as u64);
            } else if addr == REG_QUEUE_DESC_HIGH {
                e.desc = (e.desc & 0xffff_ffff) | ((val as u64) << 32u64);
            } else if addr == REG_QUEUE_DRIVER_LOW {
                e.driver = (e.driver & 0xffff_ffff_0000_0000) | (val as u64);
            } else if addr == REG_QUEUE_DRIVER_HIGH {
                e.driver = (e.driver & 0xffff_ffff) | ((val as u64) << 32u64);
            } else if addr == REG_QUEUE_DEVICE_LOW {
                e.device = (e.device & 0xffff_ffff_0000_0000) | (val as u64);
            } else {
                e.device = (e.device & 0xffff_ffff) | ((val as u64) << 32u64);
            }
            self.queues.set(q, e);
        } else {
            return Err(Interrupt::Unimplemented);
        }
        Ok(())
    }

    fn write_half(&mut self, _addr: usize, _val: u16) -> (r: Result<(), Interrupt>)
        ensures
            r == Err::<(), Interrupt>(Interrupt::Unimplemented),
            *final(self) == *old(self),
    {
        Err(Interrupt::Unimplemented)
    }

    fn write_byte(&mut self, _addr: usize, _val: u8) -> (r: Result<(), Interrupt>)
        ensures
            r == Err::<(), Interrupt>(Interrupt::Unimplemented),
            *final(self) == *old(self),
    {
        Err(Interrupt::Unimplemented)
    }

    fn read_double(&mut self, addr: usize) -> (r: Result<u64, Interrupt>)
        ensures
            *final(self) == *old(self),
            r != Err::<u64, Interrupt>(Interrupt::Halt),
            addr == REG_CONFIG ==> r == Ok::<u64, Interrupt>(old(self).capacity()),
    {
        if addr == REG_CONFIG {
            let lo = self.config_word(0);
            let hi = self.config_word(4);
            let c = (self.disk.len() / SECTOR_SIZE) as u64;
            let v = (lo as u64) | ((hi as u64) << 32u64);
            assert(v == c) by (bit_vector)
                requires
                    lo == (c & 0xffff_ffff) as u32,
                    hi == (c >> 32u64) as u32,
                    v == (lo as u64) | ((hi as u64) << 32u64),
            ;
            Ok(v)
        } else {
            Err(Interrupt::Unimplemented)
        }
    }

    fn read_word(&mut self, addr: usize) -> (r: Result<u32, Interrupt>)
        ensures
            *final(self) == *old(self),
            r != Err::<u32, Interrupt>(Interrupt::Halt),
            addr == REG_MAGIC_VALUE ==> r == Ok::<u32, Interrupt>(MAGIC_VALUE),
            addr == REG_VERSION ==> r == Ok::<u32, Interrupt>(VERSION),
            addr == REG_DEVICE_ID ==> r == Ok::<u32, Interrupt>(DEVICE_ID_BLOCK),
            addr == REG_VENDOR_ID ==> r == Ok::<u32, Interrupt>(VENDOR_ID),
            addr == REG_STATUS ==> r == Ok::<u32, Interrupt>(old(self).status),
            addr == REG_DEVICE_FEATURES ==> r == Ok::<u32, Interrupt>(
                if old(self).device_features_sel == 0 {
                    (DEVICE_FEATURES & 0xffff_ffff) as u32
                } else if old(self).device_features_sel == 1 {
                    (DEVICE_FEATURES >> 32u64) as u32
                } else {
                    0u32
                },
            ),
            addr == REG_QUEUE_SIZE_MAX ==> r == Ok::<u32, Interrupt>(QUEUE_SIZE_MAX),
            addr == REG_QUEUE_READY ==> r == Ok::<u32, Interrupt>(
                if old(self).queue_sel < old(self).queues@.len() && old(self).queues@[old(
                    self,
                ).queue_sel as int].ready {
                    1u32
                } else {
                    0u32
                },
            ),
            addr == REG_INTERRUPT_STATUS ==> r == Ok::<u32, Interrupt>(old(self).interrupt_status),
            addr == REG_CONFIG_GENERATION ==> r == Ok::<u32, Interrupt>(0),
            addr == REG_CONFIG ==> r == Ok::<u32, Interrupt>((old(self).capacity() & 0xffff_ffff) as u32),
            addr == REG_CONFIG + 20 ==> r == Ok::<u32, Interrupt>(SECTOR_SIZE as u32),
            addr < REG_CONFIG && addr != REG_MAGIC_VALUE && addr != REG_VERSION && addr
                != REG_DEVICE_ID && addr != REG_VENDOR_ID && addr != REG_DEVICE_FEATURES && addr
                != REG_QUEUE_SIZE_MAX && addr != REG_QUEUE_READY && addr != REG_INTERRUPT_STATUS
                && addr != REG_STATUS && addr != REG_CONFIG_GENERATION ==> r == Err::<u32, Interrupt>(
                Interrupt::Unimplemented,
            ),
    {
        if addr == REG_MAGIC_VALUE {
            Ok(MAGIC_VALUE)
        } else if addr == REG_VERSION {
            Ok(VERSION)
        } else if addr == REG_DEVICE_ID {
            Ok(DEVICE_ID_BLOCK)
        } else if addr == REG_VENDOR_ID {
            Ok(VENDOR_ID)
        } else if addr == REG_DEVICE_FEATURES {
            if self.device_features_sel == 0 {
                Ok((DEVICE_FEATURES & 0xffff_ffff) as u32)
            } else if self.device_features_sel == 1 {
                Ok((DEVICE_FEATURES >> 32u64) as u32)
            } else {
                Ok(0)
            }
        } else if addr == REG_QUEUE_SIZE_MAX {
            Ok(QUEUE_SIZE_MAX)
        } else if addr == REG_QUEUE_READY {
            let q = self.queue_sel as usize;
            if q < self.queues.len() {
                Ok(if self.queues[q].ready { 1 } else { 0 })
            } else {
                Ok(0)
            }
        } else if addr == REG_INTERRUPT_STATUS {
            Ok(self.interrupt_status)
        } else if addr == REG_STATUS {
            Ok(self.status)
        } else if addr == REG_CONFIG_GENERATION {
            Ok(0)
        } else if addr >= REG_CONFIG && addr % 4 == 0 {
            Ok(self.config_word(addr - REG_CONFIG))
        } else {
            Err(Interrupt::Unimplemented)
        }
    }

    fn read_half(&mut self, addr: usize) -> (r: Result<u16, Interrupt>)
        ensures
            *final(self) == *old(self),
            r != Err::<u16, Interrupt>(Interrupt::Halt),
    {
        if addr >= REG_CONFIG && addr % 2 == 0 {
            let off = addr - REG_CONFIG;
            let w = self.config_word(off - off % 4);
            Ok((w >> (8 * (off % 4)) as u32) as u16)
        } else {
            Err(Interrupt::Unimplemented)
        }
    }

    fn read_byte(&mut self, addr: usize) -> (r: Result<u8, Interrupt>)
        ensures
            *final(self) == *old(self),
            r != Err::<u8, Interrupt>(Interrupt::Halt),
    {
        if addr >= REG_CONFIG {
            let off = addr - REG_CONFIG;
            let w = self.config_word(off - off % 4);
            Ok((w >> (8 * (off % 4)) as u32) as u8)
        } else {
            Err(Interrupt::Unimplemented)
        }
    }
}

} // verus!
