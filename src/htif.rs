use vstd::prelude::*;

use crate::device::Device;
use crate::irq::Interrupt;

verus! {

/// The legacy host interface of the architectural tests: any write ends the
/// run, any read faults.
pub struct Htif {}

impl Htif {
    pub fn new() -> Htif {
        Htif {  }
    }
}

impl Device for Htif {
    fn write_double(&mut self, _addr: usize, _val: u64) -> (r: Result<(), Interrupt>)
        ensures
            r == Err::<(), Interrupt>(Interrupt::Halt),
    {
        Err(Interrupt::Halt)
    }

    fn write_word(&mut self, _addr: usize, _val: u32) -> (r: Result<(), Interrupt>)
        ensures
            r == Err::<(), Interrupt>(Interrupt::Halt),
    {
        Err(Interrupt::Halt)
    }

    fn write_half(&mut self, _addr: usize, _val: u16) -> (r: Result<(), Interrupt>)
        ensures
            r == Err::<(), Interrupt>(Interrupt::Halt),
    {
        Err(Interrupt::Halt)
    }

    fn write_byte(&mut self, _addr: usize, _val: u8) -> (r: Result<(), Interrupt>)
        ensures
            r == Err::<(), Interrupt>(Interrupt::Halt),
    {
        Err(Interrupt::Halt)
    }

    fn read_double(&mut self, addr: usize) -> (r: Result<u64, Interrupt>)
        ensures
            r == Err::<u64, Interrupt>(Interrupt::MemoryFault(addr)),
    {
        Err(Interrupt::MemoryFault(addr))
    }

    fn read_word(&mut self, addr: usize) -> (r: Result<u32, Interrupt>)
        ensures
            r == Err::<u32, Interrupt>(Interrupt::MemoryFault(addr)),
    {
        Err(Interrupt::MemoryFault(addr))
    }

    fn read_half(&mut self, addr: usize) -> (r: Result<u16, Interrupt>)
        ensures
            r == Err::<u16, Interrupt>(Interrupt::MemoryFault(addr)),
    {
        Err(Interrupt::MemoryFault(addr))
    }

    fn read_byte(&mut self, addr: usize) -> (r: Result<u8, Interrupt>)
        ensures
            r == Err::<u8, Interrupt>(Interrupt::MemoryFault(addr)),
    {
        Err(Interrupt::MemoryFault(addr))
    }
}

} // verus!
