use vstd::prelude::*;

use crate::device::Device;
use crate::irq::Interrupt;
use crate::mem::{le16, le32, le64};
use crate::ram::{fits, fits_exec};

verus! {

/// Read-only memory: reads as RAM does, bounds-checked; every write faults.
pub struct Rom {
    data: Vec<u8>,
}

impl View for Rom {
    type V = Seq<u8>;

    closed spec fn view(&self) -> Seq<u8> {
        self.data@
    }
}

impl Rom {
    pub fn new(data: Vec<u8>) -> (r: Rom)
        ensures
            r@ == data@,
    {
        Rom { data }
    }

    pub fn len(&self) -> (r: usize)
        ensures
            r == self@.len(),
    {
        self.data.len()
    }

    pub fn is_empty(&self) -> (r: bool)
        ensures
            r == (self@.len() == 0),
    {
        self.data.len() == 0
    }
}

impl Device for Rom {
    fn write_double(&mut self, addr: usize, _val: u64) -> (r: Result<(), Interrupt>)
        ensures
            r == Err::<(), Interrupt>(Interrupt::MemoryFault(addr)),
            final(self)@ == old(self)@,
    {
        Err(Interrupt::MemoryFault(addr))
    }

    fn write_word(&mut self, addr: usize, _val: u32) -> (r: Result<(), Interrupt>)
        ensures
            r == Err::<(), Interrupt>(Interrupt::MemoryFault(addr)),
            final(self)@ == old(self)@,
    {
        Err(Interrupt::MemoryFault(addr))
    }

    fn write_half(&mut self, addr: usize, _val: u16) -> (r: Result<(), Interrupt>)
        ensures
            r == Err::<(), Interrupt>(Interrupt::MemoryFault(addr)),
            final(self)@ == old(self)@,
    {
        Err(Interrupt::MemoryFault(addr))
    }

    fn write_byte(&mut self, addr: usize, _val: u8) -> (r: Result<(), Interrupt>)
        ensures
            r == Err::<(), Interrupt>(Interrupt::MemoryFault(addr)),
            final(self)@ == old(self)@,
    {
        Err(Interrupt::MemoryFault(addr))
    }

    fn read_double(&mut self, addr: usize) -> (r: Result<u64, Interrupt>)
        ensures
            final(self)@ == old(self)@,
            fits(addr, 8, old(self)@.len()) ==> r == Ok::<u64, Interrupt>(le64(old(self)@, addr as int)),
            !fits(addr, 8, old(self)@.len()) ==> r == Err::<u64, Interrupt>(Interrupt::MemoryFault(addr)),
    {
        if !fits_exec(addr, 8, self.data.len()) {
            return Err(Interrupt::MemoryFault(addr));
        }
        let d = &self.data;
        Ok((d[addr] as u64) | ((d[addr + 1] as u64) << 8u64) | ((d[addr + 2] as u64) << 16u64) | ((
        d[addr + 3] as u64) << 24u64) | ((d[addr + 4] as u64) << 32u64) | ((d[addr + 5] as u64)
            << 40u64) | ((d[addr + 6] as u64) << 48u64) | ((d[addr + 7] as u64) << 56u64))
    }

    fn read_word(&mut self, addr: usize) -> (r: Result<u32, Interrupt>)
        ensures
            final(self)@ == old(self)@,
            fits(addr, 4, old(self)@.len()) ==> r == Ok::<u32, Interrupt>(le32(old(self)@, addr as int)),
            !fits(addr, 4, old(self)@.len()) ==> r == Err::<u32, Interrupt>(Interrupt::MemoryFault(addr)),
    {
        if !fits_exec(addr, 4, self.data.len()) {
            return Err(Interrupt::MemoryFault(addr));
        }
        let d = &self.data;
        Ok((d[addr] as u32) | ((d[addr + 1] as u32) << 8u32) | ((d[addr + 2] as u32) << 16u32) | ((
        d[addr + 3] as u32) << 24u32))
    }

    fn read_half(&mut self, addr: usize) -> (r: Result<u16, Interrupt>)
        ensures
            final(self)@ == old(self)@,
            fits(addr, 2, old(self)@.len()) ==> r == Ok::<u16, Interrupt>(le16(old(self)@, addr as int)),
            !fits(addr, 2, old(self)@.len()) ==> r == Err::<u16, Interrupt>(Interrupt::MemoryFault(addr)),
    {
        if !fits_exec(addr, 2, self.data.len()) {
            return Err(Interrupt::MemoryFault(addr));
        }
        let d = &self.data;
        Ok((d[addr] as u16) | ((d[addr + 1] as u16) << 8u16))
    }

    fn read_byte(&mut self, addr: usize) -> (r: Result<u8, Interrupt>)
        ensures
            final(self)@ == old(self)@,
            fits(addr, 1, old(self)@.len()) ==> r == Ok::<u8, Interrupt>(old(self)@[addr as int]),
            !fits(addr, 1, old(self)@.len()) ==> r == Err::<u8, Interrupt>(Interrupt::MemoryFault(addr)),
    {
        if !fits_exec(addr, 1, self.data.len()) {
            return Err(Interrupt::MemoryFault(addr));
        }
        Ok(self.data[addr])
    }
}

} // verus!
