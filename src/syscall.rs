use vstd::prelude::*;

verus! {

/// One syscall occurrence, as read from the tracee's registers at a
/// syscall-trace-stop.
#[derive(Clone, Debug)]
pub struct SyscallInfo {
    pub number: u64,
    pub name: String,
}

impl SyscallInfo {
    pub fn new(number: u64, name: String) -> (r: Self)
        ensures
            r.number == number,
            r.name == name,
    {
        SyscallInfo { number, name }
    }

    /// A copy equal to this one.
    pub fn duplicate(&self) -> (r: Self)
        ensures
            r == *self,
    {
        SyscallInfo { number: self.number, name: self.name.clone() }
    }

    pub fn number(&self) -> (r: u64)
        ensures
            r == self.number,
    {
        self.number
    }
}

/// The syscalls in flight, innermost last.
#[derive(Clone, Debug)]
pub struct SyscallStack {
    stack: Vec<SyscallInfo>,
}

impl View for SyscallStack {
    type V = Seq<SyscallInfo>;

    closed spec fn view(&self) -> Seq<SyscallInfo> {
        self.stack@
    }
}

/// How a syscall-trace-stop was classified.
#[derive(Clone, Debug)]
pub enum SyscallStop {
    /// A new syscall began; it is now on top of the stack.
    Entry(SyscallInfo),
    /// The syscall on top of the stack ended; it has been taken off.
    Exit(SyscallInfo),
}

/// Whether a stop with syscall number `number` ends the syscall on top of `s`.
pub open spec fn is_exit(s: Seq<SyscallInfo>, number: u64) -> bool {
    s.len() > 0 && s.last().number == number
}

/// The stack after a syscall-trace-stop for `info`: a stop for the number on
/// top ends that syscall, any other stop begins a new one.
pub open spec fn stack_after(s: Seq<SyscallInfo>, info: SyscallInfo) -> Seq<SyscallInfo> {
    if is_exit(s, info.number) {
        s.drop_last()
    } else {
        s.push(info)
    }
}

impl SyscallStack {
    pub fn new() -> (r: Self)
        ensures
            r@ == Seq::<SyscallInfo>::empty(),
    {
        SyscallStack { stack: Vec::new() }
    }

    pub fn len(&self) -> (r: usize)
        ensures
            r == self@.len(),
    {
        self.stack.len()
    }

    pub fn is_empty(&self) -> (r: bool)
        ensures
            r == (self@.len() == 0),
    {
        self.stack.len() == 0
    }

    /// The innermost syscall in flight.
    pub fn top(&self) -> (r: Option<&SyscallInfo>)
        ensures
            self@.len() == 0 ==> r is None,
            self@.len() > 0 ==> r == Some(&self@.last()),
    {
        if self.stack.len() == 0 {
            None
        } else {
            Some(&self.stack[self.stack.len() - 1])
        }
    }

    pub fn push(&mut self, info: SyscallInfo)
        ensures
            final(self)@ == old(self)@.push(info),
    {
        self.stack.push(info);
    }

    pub fn pop(&mut self) -> (r: Option<SyscallInfo>)
        ensures
            old(self)@.len() == 0 ==> r is None && final(self)@ == old(self)@,
            old(self)@.len() > 0 ==> r == Some(old(self)@.last()) && final(self)@ == old(self)@.drop_last(),
    {
        self.stack.pop()
    }
}

/// Classifies a syscall-trace-stop for `syscall_info` and updates the stack:
/// a stop for the number on top of the stack is that syscall's exit and pops
/// it; any other stop, or one on an empty stack, is an entry and pushes it.
pub fn catch_syscall(syscall_stack: &mut SyscallStack, syscall_info: SyscallInfo) -> (r: SyscallStop)
    ensures
        final(syscall_stack)@ == stack_after(old(syscall_stack)@, syscall_info),
        is_exit(old(syscall_stack)@, syscall_info.number) ==> r == SyscallStop::Exit(old(syscall_stack)@.last()),
        !is_exit(old(syscall_stack)@, syscall_info.number) ==> r == SyscallStop::Entry(syscall_info),
{
    let exits = match syscall_stack.top() {
        Some(top) => top.number() == syscall_info.number(),
        None => false,
    };
    if exits {
        match syscall_stack.pop() {
            Some(done) => SyscallStop::Exit(done),
            None => SyscallStop::Entry(syscall_info),
        }
    } else {
        let entered = syscall_info.duplicate();
        syscall_stack.push(syscall_info);
        SyscallStop::Entry(entered)
    }
}

/// A stop that begins a syscall followed by a stop for the same number
/// restores the stack, whatever other syscalls were in flight.
pub proof fn lemma_pair_restores(s: Seq<SyscallInfo>, enter: SyscallInfo, leave: SyscallInfo)
    requires
        !is_exit(s, enter.number),
        leave.number == enter.number,
    ensures
        stack_after(s, enter) == s.push(enter),
        stack_after(stack_after(s, enter), leave) == s,
{
    assert(s.push(enter).drop_last() =~= s);
}

/// Nested syscalls A, B (B different from A) that both end, B first, restore
/// the stack only after the second exit, and the stack never grows by more
/// than two on the way.
pub proof fn lemma_nested_pairs_restore(
    s: Seq<SyscallInfo>,
    a_enter: SyscallInfo,
    b_enter: SyscallInfo,
    b_leave: SyscallInfo,
    a_leave: SyscallInfo,
)
    requires
        !is_exit(s, a_enter.number),
        b_enter.number != a_enter.number,
        b_leave.number == b_enter.number,
        a_leave.number == a_enter.number,
    ensures
        ({
            let s1 = stack_after(s, a_enter);
            let s2 = stack_after(s1, b_enter);
            let s3 = stack_after(s2, b_leave);
            let s4 = stack_after(s3, a_leave);
            &&& s1.len() == s.len() + 1
            &&& s2.len() == s.len() + 2
            &&& s3.len() == s.len() + 1
            &&& s3 != s
            &&& s4 == s
        }),
{
    let s1 = s.push(a_enter);
    lemma_pair_restores(s1, b_enter, b_leave);
    lemma_pair_restores(s, a_enter, a_leave);
}

} // verus!
