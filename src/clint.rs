use vstd::prelude::*;

use crate::device::Device;
use crate::irq::Interrupt;

verus! {

pub const CLINT_BASE: usize = 0x200_0000;
pub const MSIP_HART0_ADDR: usize = 0x0;
pub const MSIP_END_ADDR: usize = 0x4000;
pub const MTIMECMP_ADDR: usize = 0x4000;
pub const MTIMECMP_ADDRH: usize = 0x4004;
pub const MTIME_ADDR: usize = 0xbff8;
pub const MTIME_ADDRH: usize = 0xbffc;

/// Interrupt causes by their bit in `mip` and `mie`.
#[derive(Clone, Copy, Debug, PartialEq, Eq, Structural)]
pub enum InterruptType {
    MEIP,
    SEIP,
    UEIP,
    MTIP,
    STIP,
    UTIP,
    MSIP,
    SSIP,
    USIP,
}

impl InterruptType {
    pub open spec fn spec_bit(self) -> u64 {
        match self {
            InterruptType::MEIP => 11,
            InterruptType::SEIP => 9,
            InterruptType::UEIP => 8,
            InterruptType::MTIP => 7,
            InterruptType::STIP => 5,
            InterruptType::UTIP => 4,
            InterruptType::MSIP => 3,
            InterruptType::SSIP => 1,
            InterruptType::USIP => 0,
        }
    }

    /// The bit of this cause in `mip` and `mie`, also its cause code.
    pub fn bit(&self) -> (r: u64)
        ensures
            r == self.spec_bit(),
    {
        match self {
            InterruptType::MEIP => 11,
            InterruptType::SEIP => 9,
            InterruptType::UEIP => 8,
            InterruptType::MTIP => 7,
            InterruptType::STIP => 5,
            InterruptType::UTIP => 4,
            InterruptType::MSIP => 3,
            InterruptType::SSIP => 1,
            InterruptType::USIP => 0,
        }
    }
}

pub open spec fn bit_set(v: u64, b: u64) -> bool {
    (v >> b) & 1 == 1
}

/// The cause with the highest priority among those both pending and enabled,
/// in the order MEI, MSI, MTI, SEI, SSI, STI, UEI, USI, UTI.
pub open spec fn pending_spec(mip: u64, mie: u64) -> Option<InterruptType> {
    let ip = mip & mie;
    if bit_set(ip, 11) {
        Some(InterruptType::MEIP)
    } else if bit_set(ip, 3) {
        Some(InterruptType::MSIP)
    } else if bit_set(ip, 7) {
        Some(InterruptType::MTIP)
    } else if bit_set(ip, 9) {
        Some(InterruptType::SEIP)
    } else if bit_set(ip, 1) {
        Some(InterruptType::SSIP)
    } else if bit_set(ip, 5) {
        Some(InterruptType::STIP)
    } else if bit_set(ip, 8) {
        Some(InterruptType::UEIP)
    } else if bit_set(ip, 0) {
        Some(InterruptType::USIP)
    } else if bit_set(ip, 4) {
        Some(InterruptType::UTIP)
    } else {
        None
    }
}

pub fn pending_interrupt(mip: u64, mie: u64) -> (r: Option<InterruptType>)
    ensures
        r == pending_spec(mip, mie),
{
    let ip = mip & mie;
    if (ip >> 11u64) & 1 == 1 {
        Some(InterruptType::MEIP)
    } else if (ip >> 3u64) & 1 == 1 {
        Some(InterruptType::MSIP)
    } else if (ip >> 7u64) & 1 == 1 {
        Some(InterruptType::MTIP)
    } else if (ip >> 9u64) & 1 == 1 {
        Some(InterruptType::SEIP)
    } else if (ip >> 1u64) & 1 == 1 {
        Some(InterruptType::SSIP)
    } else if (ip >> 5u64) & 1 == 1 {
        Some(InterruptType::STIP)
    } else if (ip >> 8u64) & 1 == 1 {
        Some(InterruptType::UEIP)
    } else if ip & 1 == 1 {
        proof {
            assert((ip >> 0u64) == ip) by (bit_vector);
        }
        Some(InterruptType::USIP)
    } else if (ip >> 4u64) & 1 == 1 {
        proof {
            assert((ip >> 0u64) == ip) by (bit_vector);
        }
        Some(InterruptType::UTIP)
    } else {
        proof {
            assert((ip >> 0u64) == ip) by (bit_vector);
        }
        None
    }
}

/// The offset at the RTC that a CLINT timer register stands for.
pub open spec fn rtc_offset_spec(addr: usize) -> Option<usize> {
    if addr == MTIMECMP_ADDR {
        Some(0usize)
    } else if addr == MTIMECMP_ADDRH {
        Some(4usize)
    } else if addr == MTIME_ADDR {
        Some(8usize)
    } else if addr == MTIME_ADDRH {
        Some(0xcusize)
    } else {
        None
    }
}

/// The core-local interruptor: the software-interrupt flag of hart 0, and the
/// timer registers, which stand for those of the RTC mapped at `rtc_addr`.
pub struct Clint {
    pub rtc_addr: usize,
    pub msip: bool,
}

impl Clint {
    pub fn new(rtc_addr: usize) -> (r: Clint)
        ensures
            r.rtc_addr == rtc_addr,
            !r.msip,
    {
        Clint { rtc_addr, msip: false }
    }

    /// The bus address of the RTC register that a timer register stands for.
    pub fn forward(&self, addr: usize) -> (r: Option<usize>)
        ensures
            r == (match rtc_offset_spec(addr) {
                Some(o) => if self.rtc_addr + o <= usize::MAX {
                    Some((self.rtc_addr + o) as usize)
                } else {
                    None::<usize>
                },
                None => None::<usize>,
            }),
    {
        let off = if addr == MTIMECMP_ADDR {
            0usize
        } else if addr == MTIMECMP_ADDRH {
            4usize
        } else if addr == MTIME_ADDR {
            8usize
        } else if addr == MTIME_ADDRH {
            0xcusize
        } else {
            return None;
        };
        self.rtc_addr.checked_add(off)
    }
}

impl Device for Clint {
    fn write_double(&mut self, _addr: usize, _val: u64) -> (r: Result<(), Interrupt>)
        ensures
            r is Ok,
            *final(self) == *old(self),
    {
        Ok(())
    }

    fn write_word(&mut self, addr: usize, val: u32) -> (r: Result<(), Interrupt>)
        ensures
            r is Ok,
            final(self).rtc_addr == old(self).rtc_addr,
            addr == MSIP_HART0_ADDR ==> final(self).msip == (val != 0),
            addr != MSIP_HART0_ADDR ==> final(self).msip == old(self).msip,
    {
        if addr == MSIP_HART0_ADDR {
            self.msip = val != 0;
        }
        Ok(())
    }

    fn write_half(&mut self, _addr: usize, _val: u16) -> (r: Result<(), Interrupt>)
        ensures
            r == Err::<(), Interrupt>(Interrupt::Unimplemented),
            *final(self) == *old(self),
    {
        Err(Interrupt::Unimplemented)
    }

    fn write_byte(&mut self, _addr: usize, _val: u8) -> (r: Result<(), Interrupt>)
        ensures
            r == Err::<(), Interrupt>(Interrupt::Unimplemented),
            *final(self) == *old(self),
    {
        Err(Interrupt::Unimplemented)
    }

    fn read_double(&mut self, _addr: usize) -> (r: Result<u64, Interrupt>)
        ensures
            r == Ok::<u64, Interrupt>(0),
            *final(self) == *old(self),
    {
        Ok(0)
    }

    fn read_word(&mut self, addr: usize) -> (r: Result<u32, Interrupt>)
        ensures
            addr == MSIP_HART0_ADDR ==> r == Ok::<u32, Interrupt>(if old(self).msip { 1u32 } else { 0u32 }),
            addr != MSIP_HART0_ADDR ==> r == Ok::<u32, Interrupt>(0),
            *final(self) == *old(self),
    {
        if addr == MSIP_HART0_ADDR && self.msip {
            Ok(1)
        } else {
            Ok(0)
        }
    }

    fn read_half(&mut self, _addr: usize) -> (r: Result<u16, Interrupt>)
        ensures
            r == Err::<u16, Interrupt>(Interrupt::Unimplemented),
            *final(self) == *old(self),
    {
        Err(Interrupt::Unimplemented)
    }

    fn read_byte(&mut self, _addr: usize) -> (r: Result<u8, Interrupt>)
        ensures
            r == Err::<u8, Interrupt>(Interrupt::Unimplemented),
            *final(self) == *old(self),
    {
        Err(Interrupt::Unimplemented)
    }
}

} // verus!
