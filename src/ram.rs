use vstd::prelude::*;

use crate::device::Device;
use crate::irq::Interrupt;
use crate::mem::{le16, le32, le64, put16, put32, put64};

verus! {

/// The default size of main memory: 128 MiB.
pub const DRAM_SIZE: usize = 0x800_0000;

/// Whether `n` bytes starting at `addr` lie inside a store of `len` bytes.
pub open spec fn fits(addr: usize, n: usize, len: nat) -> bool {
    addr + n <= len
}

pub(crate) fn fits_exec(addr: usize, n: usize, len: usize) -> (r: bool)
    ensures
        r == fits(addr, n, len as nat),
{
    addr <= len && len - addr >= n
}

/// Main memory: zero-initialised bytes, readable and writable at any width and
/// alignment, little-endian.
pub struct Ram {
    data: Vec<u8>,
}

impl View for Ram {
    type V = Seq<u8>;

    closed spec fn view(&self) -> Seq<u8> {
        self.data@
    }
}

impl Ram {
    /// Memory of the default size, all zero.
    pub fn new() -> (r: Ram)
        ensures
            r@ == Seq::new(DRAM_SIZE as nat, |i: int| 0u8),
    {
        Ram::with_size(DRAM_SIZE)
    }

    /// Memory of `size` bytes, all zero.
    pub fn with_size(size: usize) -> (r: Ram)
        ensures
            r@ == Seq::new(size as nat, |i: int| 0u8),
    {
        let data = vec![0u8; size];
        assert(data@ =~= Seq::new(size as nat, |i: int| 0u8));
        Ram { data }
    }

    pub fn size(&self) -> (r: usize)
        ensures
            r == self@.len(),
    {
        self.data.len()
    }

    /// Copies `code` into memory at `addr`; `None`, and nothing written, where
    /// it would not fit.
    pub fn write(&mut self, addr: usize, code: Vec<u8>) -> (r: Option<()>)
        ensures
            r is Some <==> fits(addr, code@.len() as usize, old(self)@.len()),
            r is Some ==> final(self)@ == old(self)@.subrange(0, addr as int) + code@
                + old(self)@.subrange(addr + code@.len(), old(self)@.len() as int),
            r is None ==> final(self)@ == old(self)@,
    {
        if !fits_exec(addr, code.len(), self.data.len()) {
            return None;
        }
        let mut i: usize = 0;
        while i < code.len()
            invariant
                addr + code@.len() <= self.data@.len() <= usize::MAX,
                self.data@.len() == old(self)@.len(),
                i <= code@.len(),
                forall|j: int|
                    0 <= j < self.data@.len() && !(addr <= j < addr + i) ==> self.data@[j] == old(
                        self,
                    )@[j],
                forall|j: int| addr <= j < addr + i ==> self.data@[j] == code@[j - addr],
            decreases code@.len() - i,
        {
            self.data[addr + i] = code[i];
            i = i + 1;
        }
        assert(self.data@ =~= old(self)@.subrange(0, addr as int) + code@ + old(self)@.subrange(
            addr + code@.len(),
            old(self)@.len() as int,
        ));
        Some(())
    }
}

impl Device for Ram {
    fn write_double(&mut self, addr: usize, val: u64) -> (r: Result<(), Interrupt>)
        ensures
            fits(addr, 8, old(self)@.len()) ==> r is Ok && final(self)@ == put64(old(self)@, addr as int, val),
            !fits(addr, 8, old(self)@.len()) ==> r == Err::<(), Interrupt>(Interrupt::MemoryFault(addr)) && final(self)@ == old(self)@,
    {
        if !fits_exec(addr, 8, self.data.len()) {
            return Err(Interrupt::MemoryFault(addr));
        }
        self.data[addr] = (val & 0xff) as u8;
        self.data[addr + 1] = ((val >> 8u64) & 0xff) as u8;
        self.data[addr + 2] = ((val >> 16u64) & 0xff) as u8;
        self.data[addr + 3] = ((val >> 24u64) & 0xff) as u8;
        self.data[addr + 4] = ((val >> 32u64) & 0xff) as u8;
        self.data[addr + 5] = ((val >> 40u64) & 0xff) as u8;
        self.data[addr + 6] = ((val >> 48u64) & 0xff) as u8;
        self.data[addr + 7] = ((val >> 56u64) & 0xff) as u8;
        Ok(())
    }

    fn write_word(&mut self, addr: usize, val: u32) -> (r: Result<(), Interrupt>)
        ensures
            fits(addr, 4, old(self)@.len()) ==> r is Ok && final(self)@ == put32(old(self)@, addr as int, val),
            !fits(addr, 4, old(self)@.len()) ==> r == Err::<(), Interrupt>(Interrupt::MemoryFault(addr)) && final(self)@ == old(self)@,
    {
        if !fits_exec(addr, 4, self.data.len()) {
            return Err(Interrupt::MemoryFault(addr));
        }
        self.data[addr] = (val & 0xff) as u8;
        self.data[addr + 1] = ((val >> 8u32) & 0xff) as u8;
        self.data[addr + 2] = ((val >> 16u32) & 0xff) as u8;
        self.data[addr + 3] = ((val >> 24u32) & 0xff) as u8;
        Ok(())
    }

    fn write_half(&mut self, addr: usize, val: u16) -> (r: Result<(), Interrupt>)
        ensures
            fits(addr, 2, old(self)@.len()) ==> r is Ok && final(self)@ == put16(old(self)@, addr as int, val),
            !fits(addr, 2, old(self)@.len()) ==> r == Err::<(), Interrupt>(Interrupt::MemoryFault(addr)) && final(self)@ == old(self)@,
    {
        if !fits_exec(addr, 2, self.data.len()) {
            return Err(Interrupt::MemoryFault(addr));
        }
        self.data[addr] = (val & 0xff) as u8;
        self.data[addr + 1] = ((val >> 8u16) & 0xff) as u8;
        Ok(())
    }

    fn write_byte(&mut self, addr: usize, val: u8) -> (r: Result<(), Interrupt>)
        ensures
            fits(addr, 1, old(self)@.len()) ==> r is Ok && final(self)@ == old(self)@.update(addr as int, val),
            !fits(addr, 1, old(self)@.len()) ==> r == Err::<(), Interrupt>(Interrupt::MemoryFault(addr)) && final(self)@ == old(self)@,
    {
        if !fits_exec(addr, 1, self.data.len()) {
            return Err(Interrupt::MemoryFault(addr));
        }
        self.data[addr] = val;
        Ok(())
    }

    fn read_double(&mut self, addr: usize) -> (r: Result<u64, Interrupt>)
        ensures
            final(self)@ == old(self)@,
            fits(addr, 8, old(self)@.len()) ==> r == Ok::<u64, Interrupt>(le64(old(self)@, addr as int)),
            !fits(addr, 8, old(self)@.len()) ==> r == Err::<u64, Interrupt>(Interrupt::MemoryFault(addr)),
    {
        if !fits_exec(addr, 8, self.data.len()) {
            return Err(Interrupt::MemoryFault(addr));
        }
        let d = &self.data;
        Ok((d[addr] as u64) | ((d[addr + 1] as u64) << 8u64) | ((d[addr + 2] as u64) << 16u64) | ((
        d[addr + 3] as u64) << 24u64) | ((d[addr + 4] as u64) << 32u64) | ((d[addr + 5] as u64)
            << 40u64) | ((d[addr + 6] as u64) << 48u64) | ((d[addr + 7] as u64) << 56u64))
    }

    fn read_word(&mut self, addr: usize) -> (r: Result<u32, Interrupt>)
        ensures
            final(self)@ == old(self)@,
            fits(addr, 4, old(self)@.len()) ==> r == Ok::<u32, Interrupt>(le32(old(self)@, addr as int)),
            !fits(addr, 4, old(self)@.len()) ==> r == Err::<u32, Interrupt>(Interrupt::MemoryFault(addr)),
    {
        if !fits_exec(addr, 4, self.data.len()) {
            return Err(Interrupt::MemoryFault(addr));
        }
        let d = &self.data;
        Ok((d[addr] as u32) | ((d[addr + 1] as u32) << 8u32) | ((d[addr + 2] as u32) << 16u32) | ((
        d[addr + 3] as u32) << 24u32))
    }

    fn read_half(&mut self, addr: usize) -> (r: Result<u16, Interrupt>)
        ensures
            final(self)@ == old(self)@,
            fits(addr, 2, old(self)@.len()) ==> r == Ok::<u16, Interrupt>(le16(old(self)@, addr as int)),
            !fits(addr, 2, old(self)@.len()) ==> r == Err::<u16, Interrupt>(Interrupt::MemoryFault(addr)),
    {
        if !fits_exec(addr, 2, self.data.len()) {
            return Err(Interrupt::MemoryFault(addr));
        }
        let d = &self.data;
        Ok((d[addr] as u16) | ((d[addr + 1] as u16) << 8u16))
    }

    fn read_byte(&mut self, addr: usize) -> (r: Result<u8, Interrupt>)
        ensures
            final(self)@ == old(self)@,
            fits(addr, 1, old(self)@.len()) ==> r == Ok::<u8, Interrupt>(old(self)@[addr as int]),
            !fits(addr, 1, old(self)@.len()) ==> r == Err::<u8, Interrupt>(Interrupt::MemoryFault(addr)),
    {
        if !fits_exec(addr, 1, self.data.len()) {
            return Err(Interrupt::MemoryFault(addr));
        }
        Ok(self.data[addr])
    }
}

} // verus!
