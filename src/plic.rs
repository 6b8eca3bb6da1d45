use vstd::prelude::*;

use crate::device::Device;
use crate::irq::Interrupt;

verus! {

pub const PLIC_BASE: usize = 0xc00_0000;
pub const NUM_SOURCES: usize = 1024;
pub const NUM_CONTEXTS: usize = 2;
/// 32-bit words in a bitmap with one bit per source.
pub const BITMAP_WORDS: usize = 32;

/// A register of the PLIC, by its offset.
#[derive(Clone, Copy, Debug, PartialEq, Eq, Structural)]
pub enum PlicReg {
    Priority(usize),
    Pending(usize),
    Enable(usize, usize),
    Threshold(usize),
    Claim(usize),
    Other,
}

pub open spec fn reg_spec(addr: usize) -> PlicReg {
    if addr <= 0xffc && addr % 4 == 0 {
        PlicReg::Priority(addr / 4)
    } else if 0x1000 <= addr <= 0x107c && addr % 4 == 0 {
        PlicReg::Pending(((addr - 0x1000) / 4) as usize)
    } else if 0x2000 <= addr <= 0x1f_1ffc && addr % 4 == 0 {
        PlicReg::Enable(((addr - 0x2000) / 0x80) as usize, ((addr % 0x80) / 4) as usize)
    } else if 0x20_0000 <= addr <= 0x3ff_f004 && (addr - 0x20_0000) % 0x1000 == 0 {
        PlicReg::Threshold(((addr - 0x20_0000) / 0x1000) as usize)
    } else if 0x20_0000 <= addr <= 0x3ff_f004 && (addr - 0x20_0000) % 0x1000 == 4 {
        PlicReg::Claim(((addr - 0x20_0000) / 0x1000) as usize)
    } else {
        PlicReg::Other
    }
}

pub fn reg_of(addr: usize) -> (r: PlicReg)
    ensures
        r == reg_spec(addr),
{
    if addr <= 0xffc && addr % 4 == 0 {
        PlicReg::Priority(addr / 4)
    } else if 0x1000 <= addr && addr <= 0x107c && addr % 4 == 0 {
        PlicReg::Pending((addr - 0x1000) / 4)
    } else if 0x2000 <= addr && addr <= 0x1f_1ffc && addr % 4 == 0 {
        PlicReg::Enable((addr - 0x2000) / 0x80, (addr % 0x80) / 4)
    } else if 0x20_0000 <= addr && addr <= 0x3ff_f004 && (addr - 0x20_0000) % 0x1000 == 0 {
        PlicReg::Threshold((addr - 0x20_0000) / 0x1000)
    } else if 0x20_0000 <= addr && addr <= 0x3ff_f004 && (addr - 0x20_0000) % 0x1000 == 4 {
        PlicReg::Claim((addr - 0x20_0000) / 0x1000)
    } else {
        PlicReg::Other
    }
}

pub open spec fn bit32(w: u32, b: u32) -> bool {
    (w >> b) & 1 == 1
}

/// The platform-level interrupt controller: a priority and a pending bit per
/// source; per context an enable bitmap, a threshold and a claim flag.
pub struct Plic {
    pub priority: Vec<u32>,
    pub pending: Vec<u32>,
    pub enable: Vec<u32>,
    pub threshold: Vec<u32>,
    pub claimed: Vec<bool>,
}

impl Plic {
    pub open spec fn wf(&self) -> bool {
        &&& self.priority@.len() == NUM_SOURCES
        &&& self.pending@.len() == BITMAP_WORDS
        &&& self.enable@.len() == NUM_CONTEXTS * BITMAP_WORDS
        &&& self.threshold@.len() == NUM_CONTEXTS
        &&& self.claimed@.len() == NUM_CONTEXTS
    }

    pub open spec fn is_pending(&self, s: int) -> bool {
        bit32(self.pending@[s / 32], (s % 32) as u32)
    }

    pub open spec fn is_enabled(&self, ctx: int, s: int) -> bool {
        bit32(self.enable@[ctx * 32 + s / 32], (s % 32) as u32)
    }

    /// A source that a claim by `ctx` may return.
    pub open spec fn eligible(&self, ctx: int, s: int) -> bool {
        0 < s && self.is_pending(s) && self.is_enabled(ctx, s) && self.priority@[s]
            > self.threshold@[ctx]
    }

    /// The eligible source of highest priority below `n`, the lowest such on a
    /// tie; 0 where none is.
    pub open spec fn best_below(&self, ctx: int, n: int) -> int
        decreases n,
    {
        if n <= 1 {
            0
        } else {
            let b = self.best_below(ctx, n - 1);
            let s = n - 1;
            if self.eligible(ctx, s) && (b == 0 || self.priority@[s] > self.priority@[b]) {
                s
            } else {
                b
            }
        }
    }

    pub open spec fn best(&self, ctx: int) -> int {
        self.best_below(ctx, NUM_SOURCES as int)
    }

    pub fn new() -> (r: Plic)
        ensures
            r.wf(),
            forall|s: int| 0 <= s < NUM_SOURCES ==> r.priority@[s] == 0,
            forall|w: int| 0 <= w < BITMAP_WORDS ==> r.pending@[w] == 0,
    {
        Plic {
            priority: vec![0u32; NUM_SOURCES],
            pending: vec![0u32; BITMAP_WORDS],
            enable: vec![0u32; NUM_CONTEXTS * BITMAP_WORDS],
            threshold: vec![0u32; NUM_CONTEXTS],
            claimed: vec![false; NUM_CONTEXTS],
        }
    }

    /// Latches source `source` as pending.
    pub fn fire_interrupt(&mut self, source: usize)
        requires
            old(self).wf(),
        ensures
            final(self).wf(),
            final(self).priority@ == old(self).priority@,
            final(self).enable@ == old(self).enable@,
            final(self).threshold@ == old(self).threshold@,
            final(self).claimed@ == old(self).claimed@,
            source < NUM_SOURCES ==> final(self).pending@ == old(self).pending@.update(
                (source / 32) as int,
                old(self).pending@[(source / 32) as int] | (1u32 << (source % 32) as u32),
            ),
            source >= NUM_SOURCES ==> final(self).pending@ == old(self).pending@,
            source < NUM_SOURCES ==> final(self).is_pending(source as int),
    {
        if source < NUM_SOURCES {
            let w = self.pending[source / 32];
            let b = (source % 32) as u32;
            let n = w | (1u32 << b);
            assert((n >> b) & 1 == 1) by (bit_vector)
                requires
                    n == w | (1u32 << b),
                    b < 32,
            ;
            self.pending[source / 32] = n;
        }
    }

    pub fn set_source_priority(&mut self, source: usize, priority: u32)
        requires
            old(self).wf(),
        ensures
            final(self).wf(),
            source < NUM_SOURCES ==> final(self).priority@ == old(self).priority@.update(source as int, priority),
            source >= NUM_SOURCES ==> final(self).priority@ == old(self).priority@,
            final(self).pending@ == old(self).pending@,
            final(self).enable@ == old(self).enable@,
            final(self).threshold@ == old(self).threshold@,
            final(self).claimed@ == old(self).claimed@,
    {
        if source < NUM_SOURCES {
            self.priority[source] = priority;
        }
    }

    pub fn get_source_priority(&self, source: usize) -> (r: u32)
        requires
            self.wf(),
        ensures
            r == if source < NUM_SOURCES { self.priority@[source as int] } else { 0 },
    {
        if source < NUM_SOURCES {
            self.priority[source]
        } else {
            0
        }
    }

    /// The source to serve for `ctx`, or 0; its pending bit is cleared.
    pub fn claim_interrupt(&mut self, context: usize) -> (r: u32)
        requires
            old(self).wf(),
        ensures
            final(self).wf(),
            context >= NUM_CONTEXTS ==> r == 0 && *final(self) == *old(self),
            context < NUM_CONTEXTS ==> r == old(self).best(context as int),
            context < NUM_CONTEXTS && r != 0 ==> final(self).pending@ == old(self).pending@.update(
                (r / 32) as int,
                old(self).pending@[(r / 32) as int] & !(1u32 << (r % 32)),
            ) && final(self).claimed@ == old(self).claimed@.update(context as int, true),
            context < NUM_CONTEXTS && r == 0 ==> final(self).pending@ == old(self).pending@
                && final(self).claimed@ == old(self).claimed@,
            final(self).priority@ == old(self).priority@,
            final(self).enable@ == old(self).enable@,
            final(self).threshold@ == old(self).threshold@,
    {
        if context >= NUM_CONTEXTS {
            return 0;
        }
        let best = self.best_source(context);
        if best != 0 {
            let w = self.pending[best / 32];
            self.pending[best / 32] = w & !(1u32 << (best % 32) as u32);
            self.claimed[context] = true;
        }
        best as u32
    }

    /// The eligible source of highest priority for `ctx`, or 0.
    pub fn best_source(&self, context: usize) -> (r: usize)
        requires
            self.wf(),
            context < NUM_CONTEXTS,
        ensures
            r == self.best(context as int),
            r < NUM_SOURCES,
    {
        let mut best: usize = 0;
        let mut s: usize = 1;
        while s < NUM_SOURCES
            invariant
                self.wf(),
                context < NUM_CONTEXTS,
                1 <= s <= NUM_SOURCES,
                best == self.best_below(context as int, s as int),
                best < s,
            decreases NUM_SOURCES - s,
        {
            let pending = (self.pending[s / 32] >> (s % 32) as u32) & 1 == 1;
            let enabled = (self.enable[context * 32 + s / 32] >> (s % 32) as u32) & 1 == 1;
            if pending && enabled && self.priority[s] > self.threshold[context] && (best == 0
                || self.priority[s] > self.priority[best]) {
                best = s;
            }
            s = s + 1;
        }
        best
    }

    /// Whether a claim by `ctx` would return a source.
    pub fn has_claimable(&self, context: usize) -> (r: bool)
        requires
            self.wf(),
        ensures
            r == (context < NUM_CONTEXTS && self.best(context as int) != 0),
    {
        context < NUM_CONTEXTS && self.best_source(context) != 0
    }

    pub fn complete_interrupt(&mut self, context: usize, _id: u32)
        requires
            old(self).wf(),
        ensures
            final(self).wf(),
            context < NUM_CONTEXTS ==> final(self).claimed@ == old(self).claimed@.update(context as int, false),
            context >= NUM_CONTEXTS ==> final(self).claimed@ == old(self).claimed@,
            final(self).priority@ == old(self).priority@,
            final(self).pending@ == old(self).pending@,
            final(self).enable@ == old(self).enable@,
            final(self).threshold@ == old(self).threshold@,
    {
        if context < NUM_CONTEXTS {
            self.claimed[context] = false;
        }
    }

    /// Sets word `word` of the enable bitmap of `ctx`.
    pub fn set_source_enabled(&mut self, context: usize, word: usize, source_bits: u32)
        requires
            old(self).wf(),
        ensures
            final(self).wf(),
            context < NUM_CONTEXTS && word < BITMAP_WORDS ==> final(self).enable@ == old(self).enable@.update(
                context * 32 + word,
                source_bits,
            ),
            !(context < NUM_CONTEXTS && word < BITMAP_WORDS) ==> final(self).enable@ == old(self).enable@,
            final(self).priority@ == old(self).priority@,
            final(self).pending@ == old(self).pending@,
            final(self).threshold@ == old(self).threshold@,
            final(self).claimed@ == old(self).claimed@,
    {
        if context < NUM_CONTEXTS && word < BITMAP_WORDS {
            self.enable[context * 32 + word] = source_bits;
        }
    }

    pub fn get_source_enabled(&self, context: usize, word: usize) -> (r: u32)
        requires
            self.wf(),
        ensures
            r == if context < NUM_CONTEXTS && word < BITMAP_WORDS {
                self.enable@[context * 32 + word]
            } else {
                0
            },
    {
        if context < NUM_CONTEXTS && word < BITMAP_WORDS {
            self.enable[context * 32 + word]
        } else {
            0
        }
    }

    pub fn set_priority_threshold(&mut self, context: usize, threshold: u32)
        requires
            old(self).wf(),
        ensures
            final(self).wf(),
            context < NUM_CONTEXTS ==> final(self).threshold@ == old(self).threshold@.update(context as int, threshold),
            context >= NUM_CONTEXTS ==> final(self).threshold@ == old(self).threshold@,
            final(self).priority@ == old(self).priority@,
            final(self).pending@ == old(self).pending@,
            final(self).enable@ == old(self).enable@,
            final(self).claimed@ == old(self).claimed@,
    {
        if context < NUM_CONTEXTS {
            self.threshold[context] = threshold;
        }
    }

    pub fn get_priority_threshold(&self, context: usize) -> (r: u32)
        requires
            self.wf(),
        ensures
            r == if context < NUM_CONTEXTS { self.threshold@[context as int] } else { 0 },
    {
        if context < NUM_CONTEXTS {
            self.threshold[context]
        } else {
            0
        }
    }
}

impl Device for Plic {
    fn write_double(&mut self, _addr: usize, _val: u64) -> (r: Result<(), Interrupt>)
        ensures
            r is Ok,
            *final(self) == *old(self),
    {
        Ok(())
    }

    fn write_word(&mut self, addr: usize, val: u32) -> (r: Result<(), Interrupt>)
        ensures
            r is Ok,
            old(self).wf() ==> final(self).wf(),
            old(self).wf() ==> match reg_spec(addr) {
                PlicReg::Priority(s) => final(self).priority@ == old(self).priority@.update(s as int, val)
                    && final(self).pending@ == old(self).pending@ && final(self).enable@ == old(
                    self,
                ).enable@ && final(self).threshold@ == old(self).threshold@ && final(self).claimed@
                    == old(self).claimed@,
                PlicReg::Enable(ctx, w) => final(self).enable@ == (if ctx < NUM_CONTEXTS {
                    old(self).enable@.update(ctx * 32 + w, val)
                } else {
                    old(self).enable@
                }) && final(self).priority@ == old(self).priority@ && final(self).pending@ == old(
                    self,
                ).pending@ && final(self).threshold@ == old(self).threshold@ && final(self).claimed@
                    == old(self).claimed@,
                PlicReg::Threshold(ctx) => final(self).threshold@ == (if ctx < NUM_CONTEXTS {
                    old(self).threshold@.update(ctx as int, val)
                } else {
                    old(self).threshold@
                }) && final(self).priority@ == old(self).priority@ && final(self).pending@ == old(
                    self,
                ).pending@ && final(self).enable@ == old(self).enable@ && final(self).claimed@ == old(
                    self,
                ).claimed@,
                PlicReg::Claim(ctx) => final(self).claimed@ == (if ctx < NUM_CONTEXTS {
                    old(self).claimed@.update(ctx as int, false)
                } else {
                    old(self).claimed@
                }) && final(self).priority@ == old(self).priority@ && final(self).pending@ == old(
                    self,
                ).pending@ && final(self).enable@ == old(self).enable@ && final(self).threshold@
                    == old(self).threshold@,
                _ => *final(self) == *old(self),
            },
    {
        if !(self.priority.len() == NUM_SOURCES && self.pending.len() == BITMAP_WORDS
            && self.enable.len() == NUM_CONTEXTS * BITMAP_WORDS && self.threshold.len()
            == NUM_CONTEXTS && self.claimed.len() == NUM_CONTEXTS) {
            return Ok(());
        }
        match reg_of(addr) {
            PlicReg::Priority(s) => self.set_source_priority(s, val),
            PlicReg::Enable(ctx, w) => self.set_source_enabled(ctx, w, val),
            PlicReg::Threshold(ctx) => self.set_priority_threshold(ctx, val),
            PlicReg::Claim(ctx) => self.complete_interrupt(ctx, val),
            _ => {},
        }
        Ok(())
    }

    fn write_half(&mut self, _addr: usize, _val: u16) -> (r: Result<(), Interrupt>)
        ensures
            r == Err::<(), Interrupt>(Interrupt::Unimplemented),
            *final(self) == *old(self),
    {
        Err(Interrupt::Unimplemented)
    }

    fn write_byte(&mut self, _addr: usize, _val: u8) -> (r: Result<(), Interrupt>)
        ensures
            r == Err::<(), Interrupt>(Interrupt::Unimplemented),
            *final(self) == *old(self),
    {
        Err(Interrupt::Unimplemented)
    }

    fn read_double(&mut self, addr: usize) -> (r: Result<u64, Interrupt>)
        ensures
            old(self).wf() ==> final(self).wf(),
            r != Err::<u64, Interrupt>(Interrupt::Halt),
    {
        let lo = self.read_word(addr)?;
        if addr > usize::MAX - 4 {
            return Err(Interrupt::Unimplemented);
        }
        let hi = self.read_word(addr + 4)?;
        Ok((lo as u64) | ((hi as u64) << 32u64))
    }

    fn read_word(&mut self, addr: usize) -> (r: Result<u32, Interrupt>)
        ensures
            old(self).wf() ==> final(self).wf(),
            r != Err::<u32, Interrupt>(Interrupt::Halt),
            old(self).wf() ==> match reg_spec(addr) {
                PlicReg::Priority(s) => r == Ok::<u32, Interrupt>(old(self).priority@[s as int]),
                PlicReg::Pending(w) => r == Ok::<u32, Interrupt>(old(self).pending@[w as int]),
                PlicReg::Enable(ctx, w) => r == Ok::<u32, Interrupt>(
                    if ctx < NUM_CONTEXTS { old(self).enable@[ctx * 32 + w] } else { 0 },
                ),
                PlicReg::Threshold(ctx) => r == Ok::<u32, Interrupt>(
                    if ctx < NUM_CONTEXTS { old(self).threshold@[ctx as int] } else { 0 },
                ),
                PlicReg::Claim(ctx) => r == Ok::<u32, Interrupt>(
                    if ctx < NUM_CONTEXTS { old(self).best(ctx as int) as u32 } else { 0 },
                ) && (ctx < NUM_CONTEXTS && old(self).best(ctx as int) != 0 ==> ({
                    let s = old(self).best(ctx as int);
                    final(self).pending@ == old(self).pending@.update(
                        s / 32,
                        old(self).pending@[s / 32] & !(1u32 << (s % 32) as u32),
                    ) && final(self).claimed@ == old(self).claimed@.update(ctx as int, true)
                })) && (ctx >= NUM_CONTEXTS || old(self).best(ctx as int) == 0 ==> final(self).pending@
                    == old(self).pending@),
                PlicReg::Other => r == Err::<u32, Interrupt>(Interrupt::Unimplemented),
            },
            old(self).wf() && !(reg_spec(addr) is Claim) ==> *final(self) == *old(self),
    {
        if !(self.priority.len() == NUM_SOURCES && self.pending.len() == BITMAP_WORDS
            && self.enable.len() == NUM_CONTEXTS * BITMAP_WORDS && self.threshold.len()
            == NUM_CONTEXTS && self.claimed.len() == NUM_CONTEXTS) {
            return Err(Interrupt::Unimplemented);
        }
        match reg_of(addr) {
            PlicReg::Priority(s) => Ok(self.get_source_priority(s)),
            PlicReg::Pending(w) => Ok(self.pending[w]),
            PlicReg::Enable(ctx, w) => Ok(self.get_source_enabled(ctx, w)),
            PlicReg::Threshold(ctx) => Ok(self.get_priority_threshold(ctx)),
            PlicReg::Claim(ctx) => Ok(self.claim_interrupt(ctx)),
            PlicReg::Other => Err(Interrupt::Unimplemented),
        }
    }

    fn read_half(&mut self, _addr: usize) -> (r: Result<u16, Interrupt>)
        ensures
            r == Err::<u16, Interrupt>(Interrupt::Unimplemented),
            *final(self) == *old(self),
    {
        Err(Interrupt::Unimplemented)
    }

    fn read_byte(&mut self, _addr: usize) -> (r: Result<u8, Interrupt>)
        ensures
            r == Err::<u8, Interrupt>(Interrupt::Unimplemented),
            *final(self) == *old(self),
    {
        Err(Interrupt::Unimplemented)
    }
}

} // verus!
