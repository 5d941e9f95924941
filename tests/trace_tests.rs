use tdb::debug_info::TdbDebugInfo;
use tdb::debugger::{dispatch, probe_step, DebuggerInfo, ProbeStep, TraceAction, TraceEvent, Watchable};
use tdb::mapping::MemMap;
use tdb::syscall::{catch_syscall, SyscallInfo, SyscallStack, SyscallStop};

fn info(n: u64) -> SyscallInfo {
    SyscallInfo::new(n, format!("sys{n}"))
}

fn is_entry(s: &SyscallStop, n: u64) -> bool {
    matches!(s, SyscallStop::Entry(i) if i.number == n)
}

fn is_exit(s: &SyscallStop, n: u64) -> bool {
    matches!(s, SyscallStop::Exit(i) if i.number == n)
}

#[test]
fn syscall_pair_empties_the_stack() {
    let mut stack = SyscallStack::new();
    for _ in 0..3 {
        let e = catch_syscall(&mut stack, info(1));
        assert!(is_entry(&e, 1));
        assert_eq!(stack.len(), 1);
        let x = catch_syscall(&mut stack, info(1));
        assert!(is_exit(&x, 1));
        assert!(stack.is_empty());
    }
}

#[test]
fn nested_syscalls_empty_the_stack_after_both_exits() {
    let mut stack = SyscallStack::new();
    assert!(is_entry(&catch_syscall(&mut stack, info(7)), 7));
    assert_eq!(stack.len(), 1);
    assert!(is_entry(&catch_syscall(&mut stack, info(13)), 13));
    assert_eq!(stack.len(), 2);
    assert!(is_exit(&catch_syscall(&mut stack, info(13)), 13));
    assert_eq!(stack.len(), 1);
    assert_eq!(stack.top().map(|t| t.number), Some(7));
    assert!(is_exit(&catch_syscall(&mut stack, info(7)), 7));
    assert!(stack.is_empty());
}

#[test]
fn exit_returns_the_entry_that_was_pushed() {
    let mut stack = SyscallStack::new();
    catch_syscall(&mut stack, SyscallInfo::new(0, "read".to_string()));
    match catch_syscall(&mut stack, SyscallInfo::new(0, "other".to_string())) {
        SyscallStop::Exit(i) => assert_eq!(i.name, "read"),
        SyscallStop::Entry(_) => panic!("expected an exit"),
    }
}

#[test]
fn stack_push_pop_top() {
    let mut stack = SyscallStack::new();
    assert!(stack.top().is_none());
    assert!(stack.pop().is_none());
    stack.push(info(3));
    stack.push(info(4));
    assert_eq!(stack.top().map(|t| t.number()), Some(4));
    assert_eq!(stack.pop().map(|t| t.number), Some(4));
    assert_eq!(stack.len(), 1);
}

#[test]
fn exited_event_exits_with_same_code() {
    assert_eq!(dispatch(TraceEvent::Exited { pid: 100, code: 42 }), TraceAction::Exit { code: 42 });
    assert_eq!(dispatch(TraceEvent::Exited { pid: 1, code: 0 }), TraceAction::Exit { code: 0 });
}

#[test]
fn other_events_resume_or_idle() {
    assert_eq!(dispatch(TraceEvent::Continued { pid: 5 }), TraceAction::Resume { pid: 5 });
    assert_eq!(
        dispatch(TraceEvent::Stopped { pid: 5, signal: 19 }),
        TraceAction::ResumeWithSignal { pid: 5, signal: 19 }
    );
    assert_eq!(
        dispatch(TraceEvent::Signaled { pid: 5, signal: 9, core_dumped: true }),
        TraceAction::ResumeWithSignal { pid: 5, signal: 9 }
    );
    assert_eq!(
        dispatch(TraceEvent::PtraceEvent { pid: 5, signal: 5, event: 4 }),
        TraceAction::ResumeWithSignal { pid: 5, signal: 5 }
    );
    assert_eq!(dispatch(TraceEvent::SyscallStop { pid: 5 }), TraceAction::TraceSyscall { pid: 5 });
    assert_eq!(dispatch(TraceEvent::StillAlive), TraceAction::Idle);
}

#[test]
fn probe_waits_until_mappings_appear() {
    assert!(matches!(probe_step(Vec::new()), ProbeStep::ServiceSyscall));
    let m = MemMap { start: 0x1000, size: 0x1000, offset: 0, readable: true, writable: false, executable: true };
    match probe_step(vec![m]) {
        ProbeStep::Ready(v) => assert_eq!(v, vec![m]),
        ProbeStep::ServiceSyscall => panic!("expected the mappings"),
    }
}

#[test]
fn watchpoints_append_without_dedup() {
    let debug_info = TdbDebugInfo { fn_info_vec: vec![], var_info_vec: vec![], mmap_info_vec: vec![], base_addr: u64::MAX };
    let mut d = DebuggerInfo::new(SyscallStack::new(), debug_info);
    assert!(d.watch_list.is_empty());
    assert!(!d.step_flag);
    assert!(d.prev_command.is_none());
    d.set_watchpoint(Watchable::Address(0x4010), 7);
    d.set_watchpoint(Watchable::Register("rax".to_string()), 1);
    d.set_watchpoint(Watchable::Address(0x4010), 7);
    assert_eq!(d.watch_list.len(), 3);
    assert!(matches!(d.watch_list[0], (Watchable::Address(0x4010), 7)));
    assert!(matches!(&d.watch_list[1], (Watchable::Register(r), 1) if r == "rax"));
    assert!(matches!(d.watch_list[2], (Watchable::Address(0x4010), 7)));
}
