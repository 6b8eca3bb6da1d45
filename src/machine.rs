use vstd::prelude::*;

use crate::bus::{Dev, DynBus};
use crate::exec::write_reg;
use crate::hart::{bit, fetch_spec, retire_spec, Hart, MSTATUS_MIE};
use crate::csr::MSTATUS;
use crate::bus::ram_of;
use crate::ins::Instruction;
use crate::irq::Interrupt;
use crate::ram::Ram;

verus! {

/// A bare machine: one hart whose only device is `ram`, mapped from address
/// 0, starting at address 0.
pub struct Machine {
    pub hart: Hart,
}

impl Machine {
    pub open spec fn wf(&self) -> bool {
        self.hart.wf()
    }

    pub fn new(ram: Ram) -> (r: Machine)
        ensures
            r.wf(),
            r.hart.pc == 0,
            r.hart.regs() == Seq::new(32, |i: int| 0u64),
            !r.hart.stop,
            ram@.len() > 0 ==> r.hart.bus.devices@.len() == 1 && r.hart.bus.devices@[0].start == 0
                && r.hart.bus.devices@[0].end == ram@.len() && r.hart.bus.devices@[0].dev is Ram
                && ram_of(r.hart.bus.devices@[0].dev) == ram@,
            ram@.len() == 0 ==> r.hart.bus.devices@.len() == 0,
    {
        let mut bus = DynBus::new();
        let size = ram.size();
        let _ = bus.map(Dev::Ram(ram), 0..size);
        Machine { hart: Hart::new(0, 0, bus) }
    }

    /// One step of the hart.
    pub fn tick(&mut self) -> (r: Result<(), Interrupt>)
        requires
            old(self).wf(),
        ensures
            final(self).wf(),
            final(self).hart.regs()[0] == 0,
            old(self).hart.stop ==> r == Err::<(), Interrupt>(Interrupt::Halt),
            !old(self).hart.stop && !bit(old(self).hart.csr_at(MSTATUS), MSTATUS_MIE) ==> (retire_spec(
                &old(self).hart,
            ) matches Some((regs, pc)) ==> r is Ok && final(self).hart.regs() == regs
                && final(self).hart.pc == pc),
    {
        self.hart.tick()
    }

    pub fn set_register(&mut self, reg: u8, val: u64)
        requires
            old(self).wf(),
            reg < 32,
        ensures
            final(self).wf(),
            final(self).hart.regs() == write_reg(old(self).hart.regs(), reg, val),
            final(self).hart.pc == old(self).hart.pc,
    {
        self.hart.set_register(reg, val);
    }

    pub fn get_register(&self, reg: u8) -> (r: u64)
        requires
            self.wf(),
            reg < 32,
        ensures
            r == self.hart.regs()[reg as int],
    {
        self.hart.get_register(reg)
    }

    /// The parcel at the program counter.
    pub fn fetch_instruction(&mut self) -> (r: Result<Instruction, Interrupt>)
        requires
            old(self).wf(),
        ensures
            final(self).wf(),
            final(self).hart.regs() == old(self).hart.regs(),
            final(self).hart.pc == old(self).hart.pc,
            r matches Ok(Instruction::CRV32(h)) ==> h & 3 != 3,
            fetch_spec(old(self).hart.bus.devices@, old(self).hart.pc) matches Some(ins) ==> r == Ok::<
                Instruction,
                Interrupt,
            >(ins),
    {
        self.hart.fetch_instruction()
    }
}

} // verus!
