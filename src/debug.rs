use vstd::prelude::*;

use crate::exec::write_reg;
use crate::hart::Hart;

verus! {

/// How the hart runs under a debugger.
#[derive(Clone, Copy, Debug, PartialEq, Eq, Structural)]
pub enum ExecutionMode {
    Continue,
    Halt,
    Step,
    Pause,
}

/// A request from the debugger.
#[derive(Clone, Copy, Debug, PartialEq, Eq, Structural)]
pub enum DebugCommand {
    AddBreakpoint(u64),
    RemoveBreakpoint(u64),
    Resume,
    SetResumeAction(ExecutionMode),
    ClearResumeAction,
}

/// What the run loop does before the next tick.
#[derive(Clone, Copy, Debug, PartialEq, Eq, Structural)]
pub enum Decision {
    /// Block until the debugger sends a command.
    Wait,
    /// Report the stop at a breakpoint and wait.
    Breakpoint,
    /// The hart has shut down: report it.
    Exited,
    /// Execute one instruction, polling for commands first.
    Run,
}

/// The debugger's view of the run: the mode and the breakpoint addresses.
pub struct DebugControl {
    pub mode: ExecutionMode,
    pub breakpoints: Vec<u64>,
}

impl DebugControl {
    /// Harts start paused, with no breakpoints.
    pub fn new() -> (r: DebugControl)
        ensures
            r.mode == ExecutionMode::Pause,
            r.breakpoints@.len() == 0,
    {
        DebugControl { mode: ExecutionMode::Pause, breakpoints: Vec::new() }
    }

    /// Applies a command: breakpoints are added or removed (every copy of the
    /// address), a resume action sets the mode, clearing it continues.
    pub fn apply(&mut self, cmd: DebugCommand)
        ensures
            cmd matches DebugCommand::AddBreakpoint(a) ==> final(self).breakpoints@ == old(
                self,
            ).breakpoints@.push(a) && final(self).mode == old(self).mode,
            cmd matches DebugCommand::RemoveBreakpoint(a) ==> final(self).breakpoints@ == old(
                self,
            ).breakpoints@.filter(|b: u64| b != a) && final(self).mode == old(self).mode,
            cmd matches DebugCommand::SetResumeAction(m) ==> final(self).mode == m
                && final(self).breakpoints@ == old(self).breakpoints@,
            cmd is ClearResumeAction ==> final(self).mode == ExecutionMode::Continue
                && final(self).breakpoints@ == old(self).breakpoints@,
            cmd is Resume ==> final(self).mode == old(self).mode && final(self).breakpoints@ == old(
                self,
            ).breakpoints@,
    {
        match cmd {
            DebugCommand::AddBreakpoint(a) => self.breakpoints.push(a),
            DebugCommand::RemoveBreakpoint(a) => self.remove_breakpoint(a),
            DebugCommand::Resume => {},
            DebugCommand::SetResumeAction(m) => self.mode = m,
            DebugCommand::ClearResumeAction => self.mode = ExecutionMode::Continue,
        }
    }

    fn remove_breakpoint(&mut self, a: u64)
        ensures
            final(self).breakpoints@ == old(self).breakpoints@.filter(|b: u64| b != a),
            final(self).mode == old(self).mode,
    {
        let mut kept: Vec<u64> = Vec::new();
        let mut i: usize = 0;
        while i < self.breakpoints.len()
            invariant
                i <= self.breakpoints@.len(),
                self.breakpoints@ == old(self).breakpoints@,
                self.mode == old(self).mode,
                kept@ == self.breakpoints@.subrange(0, i as int).filter(|b: u64| b != a),
            decreases self.breakpoints@.len() - i,
        {
            let b = self.breakpoints[i];
            proof {
                let s = self.breakpoints@.subrange(0, i as int + 1);
                assert(s.drop_last() =~= self.breakpoints@.subrange(0, i as int));
                assert(s.last() == b);
                s.filter_lemma(|b: u64| b != a);
                reveal(Seq::filter);
            }
            if b != a {
                kept.push(b);
            }
            i = i + 1;
        }
        assert(self.breakpoints@.subrange(0, self.breakpoints@.len() as int) =~= self.breakpoints@);
        self.breakpoints = kept;
    }

    /// Whether the hart stands at a breakpoint.
    pub fn at_breakpoint(&self, pc: u64) -> (r: bool)
        ensures
            r == self.breakpoints@.contains(pc),
    {
        let mut i: usize = 0;
        while i < self.breakpoints.len()
            invariant
                i <= self.breakpoints@.len(),
                forall|j: int| 0 <= j < i ==> self.breakpoints@[j] != pc,
            decreases self.breakpoints@.len() - i,
        {
            if self.breakpoints[i] == pc {
                return true;
            }
            i = i + 1;
        }
        false
    }

    /// The decision before a tick at `pc`: a paused hart waits; a breakpoint
    /// pauses the hart and is reported; a step runs one instruction and then
    /// pauses; a halted hart is reported as exited.
    pub fn before_tick(&mut self, pc: u64) -> (r: Decision)
        ensures
            final(self).breakpoints@ == old(self).breakpoints@,
            old(self).mode == ExecutionMode::Halt ==> r == Decision::Exited && final(self).mode
                == ExecutionMode::Halt,
            old(self).mode == ExecutionMode::Pause ==> r == Decision::Wait && final(self).mode
                == ExecutionMode::Pause,
            (old(self).mode == ExecutionMode::Continue || old(self).mode == ExecutionMode::Step)
                && old(self).breakpoints@.contains(pc) ==> r == Decision::Breakpoint
                && final(self).mode == ExecutionMode::Pause,
            old(self).mode == ExecutionMode::Continue && !old(self).breakpoints@.contains(pc) ==> r
                == Decision::Run && final(self).mode == ExecutionMode::Continue,
            old(self).mode == ExecutionMode::Step && !old(self).breakpoints@.contains(pc) ==> r
                == Decision::Run && final(self).mode == ExecutionMode::Pause,
    {
        match self.mode {
            ExecutionMode::Halt => Decision::Exited,
            ExecutionMode::Pause => Decision::Wait,
            ExecutionMode::Continue | ExecutionMode::Step => {
                if self.at_breakpoint(pc) {
                    self.mode = ExecutionMode::Pause;
                    Decision::Breakpoint
                } else {
                    if self.mode == ExecutionMode::Step {
                        self.mode = ExecutionMode::Pause;
                    }
                    Decision::Run
                }
            },
        }
    }
}

/// The registers as the debugger reads them: the program counter, then x0
/// to x31.
pub fn read_registers(hart: &Hart) -> (r: Vec<u64>)
    requires
        hart.wf(),
    ensures
        r@ == seq![hart.pc].add(hart.regs()),
{
    let mut out: Vec<u64> = Vec::new();
    out.push(hart.pc);
    let mut i: usize = 0;
    while i < 32
        invariant
            hart.wf(),
            i <= 32,
            out@ == seq![hart.pc].add(hart.regs().subrange(0, i as int)),
        decreases 32 - i,
    {
        out.push(hart.registers[i]);
        i = i + 1;
        assert(out@ =~= seq![hart.pc].add(hart.regs().subrange(0, i as int)));
    }
    assert(hart.regs().subrange(0, 32) =~= hart.regs());
    out
}

/// Sets the registers from the debugger: the program counter, then x1 to
/// x31; x0 stays zero. Fewer than 33 values leave the hart unchanged.
pub fn write_registers(hart: &mut Hart, regs: &Vec<u64>) -> (r: bool)
    requires
        old(hart).wf(),
    ensures
        final(hart).wf(),
        r == (regs@.len() >= 33),
        r ==> final(hart).pc == regs@[0] && forall|i: int|
            1 <= i < 32 ==> final(hart).regs()[i] == regs@[i + 1],
        !r ==> final(hart).pc == old(hart).pc && final(hart).regs() == old(hart).regs(),
        final(hart).csr == old(hart).csr,
        final(hart).bus == old(hart).bus,
        final(hart).stop == old(hart).stop,
{
    if regs.len() < 33 {
        return false;
    }
    hart.pc = regs[0];
    let mut i: u8 = 1;
    while i < 32
        invariant
            hart.wf(),
            regs@.len() >= 33,
            1 <= i <= 32,
            hart.pc == regs@[0],
            forall|j: int| 1 <= j < i ==> hart.regs()[j] == regs@[j + 1],
            hart.csr == old(hart).csr,
            hart.bus == old(hart).bus,
            hart.stop == old(hart).stop,
        decreases 32 - i,
    {
        hart.set_register(i, regs[(i + 1) as usize]);
        i = i + 1;
    }
    true
}

} // verus!
