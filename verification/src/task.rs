//! Per-process layout: kernel stacks, trap contexts, task contexts and task states.
use vstd::prelude::*;
use crate::address::{PAGE_SIZE, VirtAddr};
use crate::config::{KERNEL_STACK_SIZE, TRAMPOLINE};

verus! {

/// The states of a task.
#[derive(Copy, Clone, PartialEq, Eq, Debug, Structural)]
pub enum TaskStatus {
    Ready,
    Running,
    Blocking,
    Hanging,
    Zombie,
}

/// The kernel stack of process `id` in the kernel address space, as `(bottom, top)`: the
/// stacks go down from the trampoline, each followed by a guard page.
pub fn kernel_stack_position(id: u64) -> (r: (u64, u64))
    requires
        id * (KERNEL_STACK_SIZE + PAGE_SIZE) + KERNEL_STACK_SIZE <= TRAMPOLINE,
    ensures
        r.1 == TRAMPOLINE - id * (KERNEL_STACK_SIZE + PAGE_SIZE),
        r.0 == r.1 - KERNEL_STACK_SIZE,
{
    let top = TRAMPOLINE - id * (KERNEL_STACK_SIZE + PAGE_SIZE);
    let bottom = top - KERNEL_STACK_SIZE;
    (bottom, top)
}

/// The kernel stack of a process.
pub struct KernelStack {
    pid: u64,
}

impl KernelStack {
    /// The process whose stack this is.
    pub closed spec fn owner(&self) -> u64 {
        self.pid
    }

    /// The kernel stack of process `pid`; mapping its pages into the kernel address space
    /// is up to the caller.
    pub fn new(pid: u64) -> (r: KernelStack)
        ensures
            r.owner() == pid,
    {
        KernelStack { pid }
    }

    /// The top address of the stack in the kernel address space.
    pub fn top(&self) -> (r: u64)
        requires
            self.owner() * (KERNEL_STACK_SIZE + PAGE_SIZE) + KERNEL_STACK_SIZE <= TRAMPOLINE,
        ensures
            r == TRAMPOLINE - self.owner() * (KERNEL_STACK_SIZE + PAGE_SIZE),
    {
        let (_, kernel_stack_top) = kernel_stack_position(self.pid);
        kernel_stack_top
    }
}

/// The address of the trap context of thread `tid`: the trap contexts go down from
/// `trap_context_base`, one page each.
pub fn trap_context_position(trap_context_base: u64, tid: u64) -> (r: VirtAddr)
    requires
        tid * PAGE_SIZE <= trap_context_base,
    ensures
        r.0 == crate::address::canonical_va((trap_context_base - tid * PAGE_SIZE) as u64),
{
    VirtAddr::from_u64(trap_context_base - tid * PAGE_SIZE)
}

/// The registers that a task switch saves: the return address, the stack pointer and the
/// twelve callee-saved registers.
#[derive(Clone, Copy, Debug)]
pub struct TaskContext {
    pub ra: u64,
    pub sp: u64,
    pub s: [u64; 12],
}

impl TaskContext {
    /// All registers 0.
    pub fn empty() -> (r: TaskContext)
        ensures
            r.ra == 0,
            r.sp == 0,
            forall|i: int| 0 <= i < 12 ==> r.s@[i] == 0,
    {
        TaskContext { ra: 0, sp: 0, s: [0; 12] }
    }

    /// The context of a task that has not run yet: switching to it returns to
    /// `trap_return` on the kernel stack whose top is `kstack_ptr`.
    pub fn readied_for_switching(kstack_ptr: u64, trap_return: u64) -> (r: TaskContext)
        ensures
            r.ra == trap_return,
            r.sp == kstack_ptr,
            forall|i: int| 0 <= i < 12 ==> r.s@[i] == 0,
    {
        TaskContext { ra: trap_return, sp: kstack_ptr, s: [0; 12] }
    }
}

} // verus!
