//! What the kernel does on a trap from user mode, from the cause register and the trap
//! value.
use vstd::prelude::*;
use crate::address::canonical_va;
use crate::config::TRAMPOLINE;

verus! {

/// The system call number of `rt_sigreturn`, whose return value is not written back.
pub const SYS_SIGRETURN: u64 = 139;

/// Signal number of `SIGILL`.
pub const SIGILL: u32 = 4;

/// Signal number of `SIGSEGV`.
pub const SIGSEGV: u32 = 11;

/// The causes of a trap from user mode that the kernel tells apart.
#[derive(Copy, Clone, PartialEq, Eq, Debug, Structural)]
pub enum TrapCause {
    /// `ecall` from user mode.
    UserEnvCall,
    /// A store, load or page fault on data.
    MemoryFault,
    /// A fault fetching an instruction.
    InstructionFault,
    /// An illegal instruction.
    IllegalInstruction,
    /// The supervisor timer interrupt.
    SupervisorTimer,
    /// Anything else, which the kernel does not handle.
    Unsupported,
}

/// Whether the cause register `scause` holds an interrupt: its top bit.
pub open spec fn is_interrupt(scause: u64) -> bool {
    scause >> 63u64 == 1
}

/// The code field of the cause register: every bit but the top one.
pub open spec fn cause_code(scause: u64) -> u64 {
    scause & 0x7fff_ffff_ffff_ffffu64
}

/// The cause that register value `scause` names, by the RISC-V numbering: exceptions 8
/// (environment call from user mode), 5, 7, 13 and 15 (load and store faults and page
/// faults), 1 and 12 (instruction faults), 2 (illegal instruction); interrupt 5 (supervisor
/// timer).
pub open spec fn cause_of(scause: u64) -> TrapCause {
    let code = cause_code(scause);
    if is_interrupt(scause) {
        if code == 5 {
            TrapCause::SupervisorTimer
        } else {
            TrapCause::Unsupported
        }
    } else if code == 8 {
        TrapCause::UserEnvCall
    } else if code == 5 || code == 7 || code == 13 || code == 15 {
        TrapCause::MemoryFault
    } else if code == 1 || code == 12 {
        TrapCause::InstructionFault
    } else if code == 2 {
        TrapCause::IllegalInstruction
    } else {
        TrapCause::Unsupported
    }
}

/// Decodes the cause register.
pub fn trap_cause(scause: u64) -> (r: TrapCause)
    ensures
        r == cause_of(scause),
{
    let code = scause & 0x7fff_ffff_ffff_ffff;
    if scause >> 63 == 1 {
        if code == 5 {
            TrapCause::SupervisorTimer
        } else {
            TrapCause::Unsupported
        }
    } else if code == 8 {
        TrapCause::UserEnvCall
    } else if code == 5 || code == 7 || code == 13 || code == 15 {
        TrapCause::MemoryFault
    } else if code == 1 || code == 12 {
        TrapCause::InstructionFault
    } else if code == 2 {
        TrapCause::IllegalInstruction
    } else {
        TrapCause::Unsupported
    }
}

/// What to do about a trap from user mode.
#[derive(Copy, Clone, PartialEq, Eq, Debug, Structural)]
pub enum TrapAction {
    /// Move the program counter past the `ecall`, run system call `id`, and write its result
    /// to `a0` unless `sigreturn` (the call then restored the registers itself); pending
    /// signals are delivered afterwards unless `sigreturn`.
    Syscall { id: u64, sigreturn: bool },
    /// Try to map the page of `va` lazily; raise `SIGSEGV` first when `beyond` (the address is
    /// above the trampoline), and again when the lazy mapping fails.
    PageFault { va: u64, beyond: bool },
    /// Raise a signal.
    Signal(u32),
    /// Give the processor to the next task and set the next timer interrupt.
    Yield,
    /// Stop the kernel: the trap is not handled.
    Panic,
}

/// What to do about a trap from user mode whose cause register is `scause`, trap value
/// `stval` and system call number (register `a7`) `a7`.
pub fn user_trap_action(scause: u64, stval: u64, a7: u64) -> (r: TrapAction)
    ensures
        r == (match cause_of(scause) {
            TrapCause::UserEnvCall => TrapAction::Syscall { id: a7, sigreturn: a7 == SYS_SIGRETURN },
            TrapCause::MemoryFault => TrapAction::PageFault {
                va: canonical_va(stval),
                beyond: canonical_va(stval) > canonical_va(TRAMPOLINE),
            },
            TrapCause::InstructionFault => TrapAction::Signal(SIGSEGV),
            TrapCause::IllegalInstruction => TrapAction::Signal(SIGILL),
            TrapCause::SupervisorTimer => TrapAction::Yield,
            TrapCause::Unsupported => TrapAction::Panic,
        }),
{
    match trap_cause(scause) {
        TrapCause::UserEnvCall => TrapAction::Syscall { id: a7, sigreturn: a7 == SYS_SIGRETURN },
        TrapCause::MemoryFault => {
            let va = crate::address::VirtAddr::from_u64(stval).0;
            let top = crate::address::VirtAddr::from_u64(TRAMPOLINE).0;
            TrapAction::PageFault { va, beyond: va > top }
        },
        TrapCause::InstructionFault => TrapAction::Signal(SIGSEGV),
        TrapCause::IllegalInstruction => TrapAction::Signal(SIGILL),
        TrapCause::SupervisorTimer => TrapAction::Yield,
        TrapCause::Unsupported => TrapAction::Panic,
    }
}

/// The signal that a page fault raises after trying to map the page lazily, where
/// `check_lazy` answered `lazy` (0 when the page could be mapped).
pub fn lazy_fault_signal(lazy: isize) -> (r: Option<u32>)
    ensures
        r == (if lazy != 0 {
            Some(SIGSEGV)
        } else {
            None
        }),
{
    if lazy != 0 {
        Some(SIGSEGV)
    } else {
        None
    }
}

/// Where the program resumes after a system call made by the `ecall` at `sepc`: the
/// instruction after it, four bytes on.
pub fn ecall_return_pc(sepc: usize) -> (r: usize)
    requires
        sepc + 4 <= usize::MAX,
    ensures
        r == sepc + 4,
{
    sepc + 4
}

/// What register `a0` holds after system call `result`: the result (its bits as an
/// unsigned word), but for `sigreturn`, which restored the registers itself and keeps `a0`.
pub fn syscall_a0(a0: usize, result: isize, sigreturn: bool) -> (r: usize)
    ensures
        r == (if sigreturn {
            a0
        } else {
            result as usize
        }),
{
    if sigreturn {
        a0
    } else {
        #[verifier::truncate]
        (result as usize)
    }
}

} // verus!
