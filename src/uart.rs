use vstd::prelude::*;

use crate::device::Device;
use crate::irq::Interrupt;

verus! {

pub const RX: usize = 0;
pub const IER: usize = 1;
pub const FCR: usize = 2;
pub const LCR: usize = 3;
pub const MCR: usize = 4;
pub const LSR: usize = 5;

/// Line status: the transmitter is always empty and ready.
pub const LSR_TX_READY: u8 = 0x60;

/// An 8250/16550-compatible serial port. Bytes the guest transmits gather in
/// `output`; bytes for the guest to receive wait in `input`, oldest first.
pub struct Uart8250 {
    pub ie: bool,
    pub lcr: u8,
    pub output: Vec<u8>,
    pub input: Vec<u8>,
}

impl Uart8250 {
    pub fn new() -> (r: Uart8250)
        ensures
            r.ie,
            r.lcr == 0b11,
            r.output@.len() == 0,
            r.input@.len() == 0,
    {
        Uart8250 { ie: true, lcr: 0b11, output: Vec::new(), input: Vec::new() }
    }

    /// Hands over the bytes transmitted since the last call.
    pub fn take_output(&mut self) -> (r: Vec<u8>)
        ensures
            r@ == old(self).output@,
            final(self).output@.len() == 0,
            final(self).input@ == old(self).input@,
            final(self).ie == old(self).ie,
            final(self).lcr == old(self).lcr,
    {
        let mut out = Vec::new();
        std::mem::swap(&mut out, &mut self.output);
        out
    }

    /// Queues a byte for the guest to receive.
    pub fn push_input(&mut self, b: u8)
        ensures
            final(self).input@ == old(self).input@.push(b),
            final(self).output@ == old(self).output@,
            final(self).ie == old(self).ie,
            final(self).lcr == old(self).lcr,
    {
        self.input.push(b);
    }
}

impl Device for Uart8250 {
    fn write_double(&mut self, _addr: usize, _val: u64) -> (r: Result<(), Interrupt>)
        ensures
            r == Err::<(), Interrupt>(Interrupt::Unimplemented),
    {
        Err(Interrupt::Unimplemented)
    }

    fn write_word(&mut self, _addr: usize, _val: u32) -> (r: Result<(), Interrupt>)
        ensures
            r == Err::<(), Interrupt>(Interrupt::Unimplemented),
    {
        Err(Interrupt::Unimplemented)
    }

    fn write_half(&mut self, _addr: usize, _val: u16) -> (r: Result<(), Interrupt>)
        ensures
            r == Err::<(), Interrupt>(Interrupt::Unimplemented),
    {
        Err(Interrupt::Unimplemented)
    }

    fn write_byte(&mut self, addr: usize, val: u8) -> (r: Result<(), Interrupt>)
        ensures
            addr == RX ==> r is Ok && final(self).output@ == old(self).output@.push(val),
            addr != RX ==> final(self).output@ == old(self).output@,
            final(self).input@ == old(self).input@,
            addr == IER ==> r is Ok && final(self).ie == (val != 0),
            addr != IER ==> final(self).ie == old(self).ie,
            addr == LCR ==> r is Ok && final(self).lcr == val,
            addr != LCR ==> final(self).lcr == old(self).lcr,
            addr == FCR || addr == MCR ==> r is Ok,
            addr > MCR ==> r == Err::<(), Interrupt>(Interrupt::Unimplemented),
    {
        if addr == RX {
            self.output.push(val);
            Ok(())
        } else if addr == IER {
            self.ie = val != 0;
            Ok(())
        } else if addr == LCR {
            self.lcr = val;
            Ok(())
        } else if addr == FCR || addr == MCR {
            Ok(())
        } else {
            Err(Interrupt::Unimplemented)
        }
    }

    fn read_double(&mut self, _addr: usize) -> (r: Result<u64, Interrupt>)
        ensures
            r == Err::<u64, Interrupt>(Interrupt::Unimplemented),
    {
        Err(Interrupt::Unimplemented)
    }

    fn read_word(&mut self, _addr: usize) -> (r: Result<u32, Interrupt>)
        ensures
            r == Err::<u32, Interrupt>(Interrupt::Unimplemented),
    {
        Err(Interrupt::Unimplemented)
    }

    fn read_half(&mut self, _addr: usize) -> (r: Result<u16, Interrupt>)
        ensures
            r == Err::<u16, Interrupt>(Interrupt::Unimplemented),
    {
        Err(Interrupt::Unimplemented)
    }

    fn read_byte(&mut self, addr: usize) -> (r: Result<u8, Interrupt>)
        ensures
            final(self).output@ == old(self).output@,
            final(self).ie == old(self).ie,
            final(self).lcr == old(self).lcr,
            addr == RX && old(self).input@.len() > 0 ==> r == Ok::<u8, Interrupt>(old(self).input@[0])
                && final(self).input@ == old(self).input@.drop_first(),
            addr == RX && old(self).input@.len() == 0 ==> r == Ok::<u8, Interrupt>(0),
            addr != RX ==> final(self).input@ == old(self).input@,
            addr == IER ==> r == Ok::<u8, Interrupt>(if old(self).ie { 1u8 } else { 0u8 }),
            addr == LCR ==> r == Ok::<u8, Interrupt>(old(self).lcr),
            addr == LSR ==> r == Ok::<u8, Interrupt>(
                if old(self).input@.len() > 0 { LSR_TX_READY | 1 } else { LSR_TX_READY },
            ),
            addr != RX && addr != IER && addr != LCR && addr != LSR ==> r == Err::<u8, Interrupt>(
                Interrupt::Unimplemented,
            ),
    {
        if addr == RX {
            if self.input.len() > 0 {
                Ok(self.input.remove(0))
            } else {
                Ok(0)
            }
        } else if addr == IER {
            Ok(if self.ie { 1 } else { 0 })
        } else if addr == LCR {
            Ok(self.lcr)
        } else if addr == LSR {
            Ok(if self.input.len() > 0 { LSR_TX_READY | 1 } else { LSR_TX_READY })
        } else {
            Err(Interrupt::Unimplemented)
        }
    }
}

} // verus!
