use vstd::prelude::*;

use crate::device::Device;
use crate::irq::Interrupt;

verus! {

pub const MTIMECMP_ADDR: usize = 0x0;
pub const MTIMECMP_ADDRH: usize = 0x4;
pub const MTIME_ADDR: usize = 0x8;
pub const MTIME_ADDRH: usize = 0xc;

#[verifier::external_type_specification]
#[verifier::external_body]
pub struct ExInstant(std::time::Instant);

/// Relies on std::time::Instant::now: a reading of the monotonic clock.
#[verifier::external_body]
fn clock_now() -> std::time::Instant {
    std::time::Instant::now()
}

/// Relies on Instant::elapsed: the nanoseconds since `start`, cut to 64 bits.
/// Nothing is known of the value: it depends on the time of the call.
#[verifier::external_body]
fn nanos_since(start: &std::time::Instant) -> u64 {
    start.elapsed().as_nanos() as u64
}

/// The real-time clock: `mtime` counts nanoseconds since the device was
/// made; `mtimecmp` is the deadline of the timer interrupt.
pub struct Rtc {
    pub start: std::time::Instant,
    pub mtimecmp: u64,
}

pub open spec fn low_half(v: u64) -> u32 {
    (v & 0xffff_ffff) as u32
}

pub open spec fn high_half(v: u64) -> u32 {
    (v >> 32u64) as u32
}

impl Rtc {
    /// A clock started now, with no deadline set.
    pub fn new() -> (r: Rtc)
        ensures
            r.mtimecmp == u64::MAX,
    {
        Rtc { start: clock_now(), mtimecmp: u64::MAX }
    }

    /// Nanoseconds since the clock was made.
    pub fn get_time(&self) -> u64 {
        nanos_since(&self.start)
    }

    pub fn set_timer(&mut self, val: u64)
        ensures
            final(self).mtimecmp == val,
    {
        self.mtimecmp = val;
    }

    pub fn get_timer(&self) -> (r: u64)
        ensures
            r == self.mtimecmp,
    {
        self.mtimecmp
    }

    /// Whether the deadline has passed.
    pub fn timer_pending(&self) -> (r: bool)
        ensures
            self.mtimecmp == 0 ==> r,
    {
        self.get_time() >= self.mtimecmp
    }
}

impl Device for Rtc {
    fn write_double(&mut self, addr: usize, val: u64) -> (r: Result<(), Interrupt>)
        ensures
            addr == MTIMECMP_ADDR ==> r is Ok && final(self).mtimecmp == val,
            addr != MTIMECMP_ADDR ==> r == Err::<(), Interrupt>(Interrupt::MemoryFault(addr))
                && final(self).mtimecmp == old(self).mtimecmp,
    {
        if addr == MTIMECMP_ADDR {
            self.set_timer(val);
            Ok(())
        } else {
            Err(Interrupt::MemoryFault(addr))
        }
    }

    fn write_word(&mut self, addr: usize, val: u32) -> (r: Result<(), Interrupt>)
        ensures
            addr == MTIMECMP_ADDR ==> r is Ok && low_half(final(self).mtimecmp) == val
                && high_half(final(self).mtimecmp) == high_half(old(self).mtimecmp),
            addr == MTIMECMP_ADDRH ==> r is Ok && high_half(final(self).mtimecmp) == val
                && low_half(final(self).mtimecmp) == low_half(old(self).mtimecmp),
            addr != MTIMECMP_ADDR && addr != MTIMECMP_ADDRH ==> r == Err::<(), Interrupt>(
                Interrupt::MemoryFault(addr),
            ) && final(self).mtimecmp == old(self).mtimecmp,
    {
        let old_cmp = self.mtimecmp;
        if addr == MTIMECMP_ADDR {
            let new_cmp = (old_cmp & 0xffff_ffff_0000_0000) | (val as u64);
            assert(low_half(new_cmp) == val && high_half(new_cmp) == high_half(old_cmp))
                by (bit_vector)
                requires
                    new_cmp == (old_cmp & 0xffff_ffff_0000_0000) | (val as u64),
            ;
            self.set_timer(new_cmp);
            Ok(())
        } else if addr == MTIMECMP_ADDRH {
            let new_cmp = (old_cmp & 0xffff_ffff) | ((val as u64) << 32u64);
            assert(high_half(new_cmp) == val && low_half(new_cmp) == low_half(old_cmp))
                by (bit_vector)
                requires
                    new_cmp == (old_cmp & 0xffff_ffff) | ((val as u64) << 32u64),
            ;
            self.set_timer(new_cmp);
            Ok(())
        } else {
            Err(Interrupt::MemoryFault(addr))
        }
    }

    fn write_half(&mut self, addr: usize, _val: u16) -> (r: Result<(), Interrupt>)
        ensures
            r == Err::<(), Interrupt>(Interrupt::Unaligned(addr)),
            final(self).mtimecmp == old(self).mtimecmp,
    {
        Err(Interrupt::Unaligned(addr))
    }

    fn write_byte(&mut self, addr: usize, _val: u8) -> (r: Result<(), Interrupt>)
        ensures
            r == Err::<(), Interrupt>(Interrupt::Unaligned(addr)),
            final(self).mtimecmp == old(self).mtimecmp,
    {
        Err(Interrupt::Unaligned(addr))
    }

    fn read_double(&mut self, addr: usize) -> (r: Result<u64, Interrupt>)
        ensures
            final(self).mtimecmp == old(self).mtimecmp,
            addr == MTIMECMP_ADDR ==> r == Ok::<u64, Interrupt>(old(self).mtimecmp),
            addr == MTIME_ADDR ==> r is Ok,
            addr != MTIMECMP_ADDR && addr != MTIME_ADDR ==> r == Err::<u64, Interrupt>(
                Interrupt::MemoryFault(addr),
            ),
    {
        if addr == MTIMECMP_ADDR {
            Ok(self.get_timer())
        } else if addr == MTIME_ADDR {
            Ok(self.get_time())
        } else {
            Err(Interrupt::MemoryFault(addr))
        }
    }

    fn read_word(&mut self, addr: usize) -> (r: Result<u32, Interrupt>)
        ensures
            final(self).mtimecmp == old(self).mtimecmp,
            addr == MTIMECMP_ADDR ==> r == Ok::<u32, Interrupt>(low_half(old(self).mtimecmp)),
            addr == MTIMECMP_ADDRH ==> r == Ok::<u32, Interrupt>(high_half(old(self).mtimecmp)),
            addr == MTIME_ADDR || addr == MTIME_ADDRH ==> r is Ok,
            addr != MTIMECMP_ADDR && addr != MTIMECMP_ADDRH && addr != MTIME_ADDR && addr
                != MTIME_ADDRH ==> r == Err::<u32, Interrupt>(Interrupt::MemoryFault(addr)),
    {
        if addr == MTIMECMP_ADDR {
            Ok((self.get_timer() & 0xffff_ffff) as u32)
        } else if addr == MTIMECMP_ADDRH {
            Ok((self.get_timer() >> 32u64) as u32)
        } else if addr == MTIME_ADDR {
            Ok((self.get_time() & 0xffff_ffff) as u32)
        } else if addr == MTIME_ADDRH {
            Ok((self.get_time() >> 32u64) as u32)
        } else {
            Err(Interrupt::MemoryFault(addr))
        }
    }

    fn read_half(&mut self, addr: usize) -> (r: Result<u16, Interrupt>)
        ensures
            r == Err::<u16, Interrupt>(Interrupt::Unaligned(addr)),
            final(self).mtimecmp == old(self).mtimecmp,
    {
        Err(Interrupt::Unaligned(addr))
    }

    fn read_byte(&mut self, addr: usize) -> (r: Result<u8, Interrupt>)
        ensures
            r == Err::<u8, Interrupt>(Interrupt::Unaligned(addr)),
            final(self).mtimecmp == old(self).mtimecmp,
    {
        Err(Interrupt::Unaligned(addr))
    }
}

} // verus!
