use rriscv::bus::{Dev, DynBus};
use rriscv::debug::{read_registers, write_registers, DebugCommand, DebugControl, Decision, ExecutionMode};
use rriscv::hart::Hart;
use rriscv::ram::Ram;

#[test]
fn debug_starts_paused() {
    let mut d = DebugControl::new();
    assert_eq!(d.mode, ExecutionMode::Pause);
    assert_eq!(d.before_tick(0), Decision::Wait);
}

#[test]
fn debug_breakpoints_stop_the_run() {
    let mut d = DebugControl::new();
    d.apply(DebugCommand::AddBreakpoint(0x100));
    d.apply(DebugCommand::AddBreakpoint(0x200));
    d.apply(DebugCommand::AddBreakpoint(0x100));
    d.apply(DebugCommand::ClearResumeAction);
    assert_eq!(d.before_tick(0x80), Decision::Run);
    assert_eq!(d.before_tick(0x100), Decision::Breakpoint);
    assert_eq!(d.mode, ExecutionMode::Pause);
    d.apply(DebugCommand::RemoveBreakpoint(0x100));
    assert_eq!(d.breakpoints, vec![0x200]);
    assert!(!d.at_breakpoint(0x100));
    d.apply(DebugCommand::SetResumeAction(ExecutionMode::Continue));
    assert_eq!(d.before_tick(0x100), Decision::Run);
}

#[test]
fn debug_step_runs_one_instruction() {
    let mut d = DebugControl::new();
    d.apply(DebugCommand::SetResumeAction(ExecutionMode::Step));
    assert_eq!(d.before_tick(0), Decision::Run);
    assert_eq!(d.mode, ExecutionMode::Pause);
    d.apply(DebugCommand::Resume);
    assert_eq!(d.before_tick(4), Decision::Wait);
    d.apply(DebugCommand::SetResumeAction(ExecutionMode::Halt));
    assert_eq!(d.before_tick(4), Decision::Exited);
}

#[test]
fn debug_register_access() {
    let mut bus = DynBus::new();
    bus.map(Dev::Ram(Ram::with_size(0x100)), 0..0x100);
    let mut hart = Hart::new(0, 0x40, bus);
    hart.set_register(5, 55);
    let regs = read_registers(&hart);
    assert_eq!(regs.len(), 33);
    assert_eq!(regs[0], 0x40);
    assert_eq!(regs[6], 55);
    let mut new_regs: Vec<u64> = (0..33).map(|i| i as u64 * 10).collect();
    new_regs[1] = 99;
    assert!(write_registers(&mut hart, &new_regs));
    assert_eq!(hart.pc, 0);
    assert_eq!(hart.get_register(0), 0);
    assert_eq!(hart.get_register(7), 80);
    assert!(!write_registers(&mut hart, &vec![1, 2, 3]));
    assert_eq!(hart.get_register(7), 80);
}
