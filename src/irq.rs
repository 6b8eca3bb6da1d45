use vstd::prelude::*;

use crate::ins::Instruction;

verus! {

/// What the bus, the devices and the executor report instead of a value.
#[derive(Clone, Copy, Debug, PartialEq, Eq, Structural)]
pub enum Interrupt {
    /// An access to a mapped device at an offset it does not serve.
    MemoryFault(usize),
    /// An access to an address that no device covers.
    Unmapped(usize),
    /// An access whose width or alignment the device refuses.
    Unaligned(usize),
    /// A clean shutdown: the run loop ends without a trap.
    Halt,
    /// A request the device does not implement.
    Unimplemented,
    InstructionDecodingError(Instruction),
    IllegalOpcode(Instruction),
}

} // verus!
