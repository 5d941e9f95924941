use crate::debug_info::TdbDebugInfo;
use crate::mapping::MemMap;
use crate::syscall::SyscallStack;
use vstd::prelude::*;

verus! {

/// A monitored location: a virtual address or a named register.
#[derive(Clone, Debug)]
pub enum Watchable {
    Address(u64),
    Register(String),
}

/// The state of one debug session, threaded through the control loop and
/// handed to each command.
#[derive(Clone, Debug)]
pub struct DebuggerInfo {
    pub syscall_stack: SyscallStack,
    pub debug_info: TdbDebugInfo,
    pub prev_command: Option<String>,
    pub watch_list: Vec<(Watchable, u64)>,
    pub step_flag: bool,
}

impl DebuggerInfo {
    /// A fresh session over a syscall stack and a debug-info snapshot: nothing
    /// watched, no previous command, free-run mode.
    pub fn new(syscall_stack: SyscallStack, debug_info: TdbDebugInfo) -> (r: Self)
        ensures
            r.syscall_stack == syscall_stack,
            r.debug_info == debug_info,
            r.prev_command is None,
            r.watch_list@.len() == 0,
            !r.step_flag,
    {
        DebuggerInfo { syscall_stack, debug_info, prev_command: None, watch_list: Vec::new(), step_flag: false }
    }

    /// Appends a watch entry with the value last observed at it; entries are
    /// not deduplicated.
    pub fn set_watchpoint(&mut self, watchpoint: Watchable, init_value: u64)
        ensures
            final(self).watch_list@ == old(self).watch_list@.push((watchpoint, init_value)),
            final(self).syscall_stack == old(self).syscall_stack,
            final(self).debug_info == old(self).debug_info,
            final(self).prev_command == old(self).prev_command,
            final(self).step_flag == old(self).step_flag,
    {
        self.watch_list.push((watchpoint, init_value));
    }
}

/// A state change of the tracee, as the kernel's wait primitive reports it.
#[derive(Clone, Copy, Debug, PartialEq, Eq)]
pub enum TraceEvent {
    /// The tracee exited with a status code.
    Exited { pid: i32, code: i32 },
    /// The tracee was killed by a signal, possibly dumping core.
    Signaled { pid: i32, signal: i32, core_dumped: bool },
    /// The tracee was stopped by a signal.
    Stopped { pid: i32, signal: i32 },
    /// A tracing event (exec, fork, ...) stopped the tracee.
    PtraceEvent { pid: i32, signal: i32, event: i32 },
    /// The tracee stopped at a syscall entry or exit.
    SyscallStop { pid: i32 },
    /// The tracee was resumed.
    Continued { pid: i32 },
    /// Nothing to report yet.
    StillAlive,
}

/// What the control loop does in answer to a trace event.
#[derive(Clone, Copy, Debug, PartialEq, Eq)]
pub enum TraceAction {
    /// Resume the tracee without a signal.
    Resume { pid: i32 },
    /// Resume the tracee, delivering the pending signal.
    ResumeWithSignal { pid: i32, signal: i32 },
    /// Classify the syscall-stop on the syscall stack, then resume the tracee
    /// up to its next syscall-stop.
    TraceSyscall { pid: i32 },
    /// End the debugger with this exit code.
    Exit { code: i32 },
    /// Nothing to do.
    Idle,
}

/// The action that answers each event.
pub open spec fn action_for(event: TraceEvent) -> TraceAction {
    match event {
        TraceEvent::Exited { code, .. } => TraceAction::Exit { code },
        TraceEvent::Signaled { pid, signal, .. } => TraceAction::ResumeWithSignal { pid, signal },
        TraceEvent::Stopped { pid, signal } => TraceAction::ResumeWithSignal { pid, signal },
        TraceEvent::PtraceEvent { pid, signal, .. } => TraceAction::ResumeWithSignal { pid, signal },
        TraceEvent::SyscallStop { pid } => TraceAction::TraceSyscall { pid },
        TraceEvent::Continued { pid } => TraceAction::Resume { pid },
        TraceEvent::StillAlive => TraceAction::Idle,
    }
}

/// Decides how the control loop answers a trace event; an exit of the tracee
/// ends the debugger with the tracee's own exit code.
pub fn dispatch(event: TraceEvent) -> (r: TraceAction)
    ensures
        r == action_for(event),
        event matches TraceEvent::Exited { code, .. } ==> r == (TraceAction::Exit { code }),
{
    match event {
        TraceEvent::Exited { code, .. } => TraceAction::Exit { code },
        TraceEvent::Signaled { pid, signal, .. } => TraceAction::ResumeWithSignal { pid, signal },
        TraceEvent::Stopped { pid, signal } => TraceAction::ResumeWithSignal { pid, signal },
        TraceEvent::PtraceEvent { pid, signal, .. } => TraceAction::ResumeWithSignal { pid, signal },
        TraceEvent::SyscallStop { pid } => TraceAction::TraceSyscall { pid },
        TraceEvent::Continued { pid } => TraceAction::Resume { pid },
        TraceEvent::StillAlive => TraceAction::Idle,
    }
}

/// The next step of the mapping probe.
#[derive(Clone, Debug)]
pub enum ProbeStep {
    /// The image's mappings have appeared.
    Ready(Vec<MemMap>),
    /// None yet: resolve one pending syscall-stop and wait again.
    ServiceSyscall,
}

/// Given the image's mappings found after a wait, either ends the probe with
/// them or asks for one syscall-stop to be serviced before the next wait.
pub fn probe_step(found: Vec<MemMap>) -> (r: ProbeStep)
    ensures
        found@.len() > 0 ==> (r matches ProbeStep::Ready(v) && v@ == found@),
        found@.len() == 0 ==> r is ServiceSyscall,
{
    if found.len() > 0 {
        ProbeStep::Ready(found)
    } else {
        ProbeStep::ServiceSyscall
    }
}

} // verus!
