//! Tasks and the round-robin decisions of the scheduler. The register switch
//! itself is machine code outside this crate.
use vstd::prelude::*;

verus! {

/// Number of tasks the kernel schedules.
pub const MAX_TASKS: usize = 2;

/// Size of each task's stack.
pub const STACK_SIZE: usize = 8192;

/// Number of callee-saved registers the switch pushes below the return address.
pub const SAVED_REGISTERS: usize = 6;

/// The area `fxsave` writes a task's FPU and SSE registers to.
pub struct FpuState(pub [u8; 512]);

/// The registers saved on a task's stack while it is switched out.
#[derive(Clone, Copy, Debug)]
pub struct TaskContext {
    r15: u64,
    r14: u64,
    r13: u64,
    r12: u64,
    rbp: u64,
    rbx: u64,
    rip: u64,
}

/// One entry of the task table. The FPU area is given by its address.
#[derive(Clone, Copy, Debug, PartialEq, Eq, Structural)]
pub struct Task {
    pub id: usize,
    /// Stack pointer saved when the task was switched out.
    pub rsp: u64,
    pub active: bool,
    pub fpu_state_addr: usize,
}

impl Task {
    /// An unused table entry.
    pub fn empty() -> (r: Self)
        ensures
            r == (Task { id: 0, rsp: 0, active: false, fpu_state_addr: 0 }),
    {
        Task { id: 0, rsp: 0, active: false, fpu_state_addr: 0 }
    }
}

/// The task after `i` in round-robin order.
pub open spec fn next_task(i: int) -> int {
    (i + 1) % MAX_TASKS as int
}

/// One word the scheduler's setup writes to a new task's stack.
#[derive(Clone, Copy, Debug, PartialEq, Eq, Structural)]
pub struct StackWrite {
    pub addr: u64,
    pub value: u64,
}

/// The task table and the index of the running task.
pub struct Scheduler {
    pub tasks: [Task; 2],
    pub current: usize,
}

impl Scheduler {
    /// A table of empty entries, task 0 running.
    pub fn new() -> (r: Self)
        ensures
            r.current == 0,
            r.tasks@ == seq![Task::empty_spec(), Task::empty_spec()],
    {
        Scheduler { tasks: [Task::empty(), Task::empty()], current: 0 }
    }

    /// Sets up the two tasks: task 0 is the code already running, task 1 the
    /// shell, whose stack (of `STACK_SIZE` bytes from `shell_stack_base`) is
    /// forged so that the first switch to it returns into `shell_entry` with
    /// six zeroed callee-saved registers popped before. Returns the stack words
    /// to write, from the top of the stack down.
    pub fn init_scheduler(
        &mut self,
        fpu_state_0: usize,
        fpu_state_1: usize,
        shell_stack_base: u64,
        shell_entry: u64,
    ) -> (writes: Vec<StackWrite>)
        requires
            shell_stack_base + STACK_SIZE <= u64::MAX,
        ensures
            final(self).current == old(self).current,
            final(self).tasks[0] == (Task { id: 0, rsp: 0, active: true, fpu_state_addr: fpu_state_0 }),
            final(self).tasks[1] == (Task {
                id: 1,
                rsp: (shell_stack_base + STACK_SIZE - 8 * (SAVED_REGISTERS + 1)) as u64,
                active: true,
                fpu_state_addr: fpu_state_1,
            }),
            writes@.len() == SAVED_REGISTERS + 1,
            writes@[0] == (StackWrite { addr: (shell_stack_base + STACK_SIZE - 8) as u64, value: shell_entry }),
            forall|k: int|
                1 <= k <= SAVED_REGISTERS ==> #[trigger] writes@[k] == (StackWrite {
                    addr: (shell_stack_base + STACK_SIZE - 8 * (k + 1)) as u64,
                    value: 0,
                }),
    {
        self.tasks[0] = Task { id: 0, rsp: 0, active: true, fpu_state_addr: fpu_state_0 };

        let stack_top = shell_stack_base + STACK_SIZE as u64;
        let mut rsp = stack_top;
        let mut writes: Vec<StackWrite> = Vec::new();

        rsp = rsp - 8;
        writes.push(StackWrite { addr: rsp, value: shell_entry });

        let mut i: usize = 0;
        while i < SAVED_REGISTERS
            invariant
                i <= SAVED_REGISTERS,
                stack_top == shell_stack_base + STACK_SIZE,
                rsp == stack_top - 8 * (i + 1),
                writes@.len() == i + 1,
                writes@[0] == (StackWrite { addr: (stack_top - 8) as u64, value: shell_entry }),
                forall|k: int|
                    1 <= k <= i ==> #[trigger] writes@[k] == (StackWrite {
                        addr: (stack_top - 8 * (k + 1)) as u64,
                        value: 0,
                    }),
            decreases SAVED_REGISTERS - i,
        {
            rsp = rsp - 8;
            writes.push(StackWrite { addr: rsp, value: 0 });
            i = i + 1;
        }

        self.tasks[1] = Task { id: 1, rsp: rsp, active: true, fpu_state_addr: fpu_state_1 };
        writes
    }

    /// The round-robin decision taken on every timer tick: when the next task
    /// is active it becomes the running one and the pair (next, previous) is
    /// returned for the register switch; otherwise nothing changes.
    pub fn schedule(&mut self) -> (r: Option<(usize, usize)>)
        requires
            old(self).current < MAX_TASKS,
        ensures
            final(self).tasks == old(self).tasks,
            final(self).current < MAX_TASKS,
            old(self).tasks[next_task(old(self).current as int)].active ==> {
                &&& r == Some((next_task(old(self).current as int) as usize, old(self).current))
                &&& final(self).current == next_task(old(self).current as int)
            },
            !old(self).tasks[next_task(old(self).current as int)].active ==> {
                &&& r == None::<(usize, usize)>
                &&& final(self).current == old(self).current
            },
    {
        let prev_index = self.current;
        let next_index = (prev_index + 1) % MAX_TASKS;
        if !self.tasks[next_index].active {
            return None;
        }
        self.current = next_index;
        Some((next_index, prev_index))
    }
}

impl Task {
    /// The value `Task::empty` returns.
    pub open spec fn empty_spec() -> Task {
        Task { id: 0, rsp: 0, active: false, fpu_state_addr: 0 }
    }
}

/// With every task active, each task runs again after `MAX_TASKS` switches:
/// going round the table returns to the task one started from.
pub proof fn law_round_robin_returns(i: int)
    requires
        0 <= i < MAX_TASKS,
    ensures
        next_task(next_task(i)) == i,
        next_task(i) != i,
{
}

} // verus!
