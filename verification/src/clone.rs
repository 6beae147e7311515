//! What the flags of `clone` ask of a new task: which resources it shares with its parent
//! and which addresses the kernel writes its id to.
use vstd::prelude::*;

verus! {

/// The flags of `clone` above the low byte (which holds the exit signal), as Linux numbers
/// them.
#[derive(Copy, Clone, PartialEq, Eq, Debug, Structural)]
pub struct CloneFlags {
    pub bits: u64,
}

impl CloneFlags {
    /// Share the address space.
    pub const VM: u64 = 0x100;
    /// Share the file system information.
    pub const FS: u64 = 0x200;
    /// Share the file descriptor table.
    pub const FILES: u64 = 0x400;
    /// Share the signal actions.
    pub const SIGHAND: u64 = 0x800;
    /// Be a thread of the same thread group.
    pub const THREAD: u64 = 0x1_0000;
    /// Set the thread pointer of the child.
    pub const SETTLS: u64 = 0x8_0000;
    /// Write the child's id at the parent's address.
    pub const PARENT_SETTID: u64 = 0x10_0000;
    /// Clear the child's id at the child's address when it exits.
    pub const CHILD_CLEARTID: u64 = 0x20_0000;
    /// Write the child's id at the child's address.
    pub const CHILD_SETTID: u64 = 0x100_0000;
    /// Every flag bit: bits 8 to 31.
    pub const ALL: u64 = 0xffff_ff00;

    /// The flags of `bits`, or `None` when a bit is not a flag.
    pub fn from_bits(bits: u64) -> (r: Option<CloneFlags>)
        ensures
            r == (if bits & !Self::ALL == 0 {
                Some(CloneFlags { bits })
            } else {
                None
            }),
    {
        if bits & !Self::ALL == 0 {
            Some(CloneFlags { bits })
        } else {
            None
        }
    }

    /// Whether every flag of `bits` is set.
    pub fn contains(&self, bits: u64) -> (r: bool)
        ensures
            r == (self.bits & bits == bits),
    {
        self.bits & bits == bits
    }
}

/// What a `clone` asks for.
#[derive(Copy, Clone, PartialEq, Eq, Debug, Structural)]
pub struct ClonePlan {
    /// The thread group of the child.
    pub tgid: u64,
    /// The index of the child among the threads of its group (0 for a new process).
    pub private_tid: u64,
    /// The child shares the parent's address space (else it gets a copy on write).
    pub share_vm: bool,
    /// The child is a thread: it gets a trap context of its own in the address space and
    /// starts from a copy of the parent's.
    pub thread: bool,
    /// The child shares the parent's file descriptor table (else it gets a copy).
    pub share_files: bool,
    /// The child shares the parent's signal actions (else it gets a copy).
    pub share_sighand: bool,
    /// The child's id is written at the parent's address.
    pub parent_settid: bool,
    /// The child's id is written at the child's address.
    pub child_settid: bool,
    /// The child's address is recorded to be cleared at its exit.
    pub child_cleartid: bool,
    /// The child's thread pointer is set.
    pub settls: bool,
}

/// Whether every flag of `bits` is set in `flags`.
pub open spec fn has(flags: u64, bits: u64) -> bool {
    flags & bits == bits
}

/// The plan of `clone` with `flags` for child `child_pid` of `parent_pid` (see
/// [`clone_plan`]).
pub open spec fn plan_of(flags: u64, parent_pid: u64, child_pid: u64) -> ClonePlan {
    let f = flags & !0xffu64;
    let thread = has(f, CloneFlags::THREAD);
    let tgid = if thread {
        parent_pid
    } else {
        child_pid
    };
    ClonePlan {
        tgid,
        private_tid: (child_pid - tgid) as u64,
        share_vm: has(f, CloneFlags::VM),
        thread,
        share_files: has(f, CloneFlags::FILES),
        share_sighand: has(f, CloneFlags::SIGHAND),
        parent_settid: has(f, CloneFlags::PARENT_SETTID),
        child_settid: has(f, CloneFlags::CHILD_SETTID),
        child_cleartid: has(f, CloneFlags::CHILD_CLEARTID),
        settls: has(f, CloneFlags::SETTLS),
    }
}

/// What `clone` with `flags` (the exit signal in the low byte) asks of the child `child_pid`
/// of `parent_pid`: a thread joins the parent's group (its index is the distance of the
/// ids), another task starts a group of its own. `None` on a fatal error: an
/// unknown flag, or a thread whose id is below its parent's.
pub fn clone_plan(flags: u64, parent_pid: u64, child_pid: u64) -> (r: Option<ClonePlan>)
    ensures
        r is Some <==> (flags & !0xffu64) & !CloneFlags::ALL == 0 && (has(flags, CloneFlags::THREAD)
            ==> parent_pid <= child_pid),
        r matches Some(p) ==> p == plan_of(flags, parent_pid, child_pid),
        r matches Some(p) ==> {
            let f = flags & !0xffu64;
            &&& p.thread == has(f, CloneFlags::THREAD)
            &&& p.tgid == (if p.thread {
                parent_pid
            } else {
                child_pid
            })
            &&& p.private_tid == child_pid - p.tgid
            &&& p.share_vm == has(f, CloneFlags::VM)
            &&& p.share_files == has(f, CloneFlags::FILES)
            &&& p.share_sighand == has(f, CloneFlags::SIGHAND)
            &&& p.parent_settid == has(f, CloneFlags::PARENT_SETTID)
            &&& p.child_settid == has(f, CloneFlags::CHILD_SETTID)
            &&& p.child_cleartid == has(f, CloneFlags::CHILD_CLEARTID)
            &&& p.settls == has(f, CloneFlags::SETTLS)
        },
{
    let f = match CloneFlags::from_bits(flags & !0xff) {
        Some(f) => f,
        None => {
            return None;
        },
    };
    proof {
        let b = flags;
        assert((b & !0xffu64) & 0x1_0000u64 == 0x1_0000u64 <==> b & 0x1_0000u64 == 0x1_0000u64) by (bit_vector);
    }
    let thread = f.contains(CloneFlags::THREAD);
    let tgid = if thread {
        parent_pid
    } else {
        child_pid
    };
    if child_pid < tgid {
        return None;
    }
    Some(
        ClonePlan {
            tgid,
            private_tid: child_pid - tgid,
            share_vm: f.contains(CloneFlags::VM),
            thread,
            share_files: f.contains(CloneFlags::FILES),
            share_sighand: f.contains(CloneFlags::SIGHAND),
            parent_settid: f.contains(CloneFlags::PARENT_SETTID),
            child_settid: f.contains(CloneFlags::CHILD_SETTID),
            child_cleartid: f.contains(CloneFlags::CHILD_CLEARTID),
            settls: f.contains(CloneFlags::SETTLS),
        },
    )
}

} // verus!
