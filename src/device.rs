use vstd::prelude::*;

use crate::irq::Interrupt;

verus! {

/// A memory-mapped device: typed accesses at offsets relative to where the
/// device is mapped, each giving a value or the reason it failed.
pub trait Device {
    fn write_double(&mut self, addr: usize, val: u64) -> Result<(), Interrupt>;

    fn write_word(&mut self, addr: usize, val: u32) -> Result<(), Interrupt>;

    fn write_half(&mut self, addr: usize, val: u16) -> Result<(), Interrupt>;

    fn write_byte(&mut self, addr: usize, val: u8) -> Result<(), Interrupt>;

    fn read_double(&mut self, addr: usize) -> Result<u64, Interrupt>;

    fn read_word(&mut self, addr: usize) -> Result<u32, Interrupt>;

    fn read_half(&mut self, addr: usize) -> Result<u16, Interrupt>;

    fn read_byte(&mut self, addr: usize) -> Result<u8, Interrupt>;
}

} // verus!
