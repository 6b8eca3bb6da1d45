use vstd::prelude::*;

pub mod bus;
pub mod clint;
pub mod csr;
pub mod debug;
pub mod device;
pub mod exec;
pub mod hart;
pub mod htif;
pub mod ins;
pub mod irq;
pub mod machine;
pub mod mem;
pub mod plic;
pub mod ram;
pub mod reg;
pub mod rom;
pub mod rtc;
pub mod see;
pub mod uart;
pub mod virtio;

verus! {

} // verus!
