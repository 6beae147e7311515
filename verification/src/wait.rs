//! The decisions of `wait4`: whether there is a child to wait for, which one to reap, and
//! what is written back as its status.
use vstd::prelude::*;
use crate::errno::Errno;

verus! {

/// What `wait4` does next.
#[derive(Copy, Clone, PartialEq, Eq, Debug, Structural)]
pub enum WaitStep {
    /// Take child `index` out of the children and return its id, writing its status.
    Reap(usize),
    /// Give the processor away and look again.
    Wait,
}

/// Whether child id `child` is waited for by `wait4(pid)`: any child for -1, else the one of
/// that id.
pub open spec fn waited_for(pid: isize, child: u64) -> bool {
    pid == -1 || (pid as usize) as u64 == child
}

/// What `wait4(pid)` does when the children of the task are `children` (each its id and
/// whether it is a zombie): `ECHILD` when no child is waited for (so also for -1 and no
/// child at all); reap the first waited-for zombie; else wait.
pub fn wait4_step(children: &Vec<(u64, bool)>, pid: isize) -> (r: Result<WaitStep, Errno>)
    ensures
        ({
            &&& r == Err::<WaitStep, Errno>(Errno::ECHILD) <==> forall|i: int|
                0 <= i < children@.len() ==> !waited_for(pid, #[trigger] children@[i].0)
            &&& r matches Ok(WaitStep::Reap(i)) ==> {
                &&& i < children@.len()
                &&& waited_for(pid, children@[i as int].0)
                &&& children@[i as int].1
                &&& forall|j: int|
                    0 <= j < i ==> !(waited_for(pid, #[trigger] children@[j].0) && children@[j].1)
            }
            &&& r == Ok::<WaitStep, Errno>(WaitStep::Wait) <==> (exists|i: int|
                0 <= i < children@.len() && waited_for(pid, #[trigger] children@[i].0)) && forall|i: int|
                0 <= i < children@.len() ==> !(waited_for(pid, #[trigger] children@[i].0) && children@[i].1)
            &&& r is Ok ==> r matches Ok(WaitStep::Reap(_)) || r == Ok::<WaitStep, Errno>(WaitStep::Wait)
            &&& r is Err ==> r == Err::<WaitStep, Errno>(Errno::ECHILD)
        }),
{
    let mut any = false;
    let mut i: usize = 0;
    while i < children.len()
        invariant
            i <= children@.len(),
            any ==> exists|j: int| 0 <= j < i && waited_for(pid, #[trigger] children@[j].0),
            !any ==> forall|j: int| 0 <= j < i ==> !waited_for(pid, #[trigger] children@[j].0),
        decreases children@.len() - i,
    {
        if pid == -1 || pid as usize as u64 == children[i].0 {
            any = true;
            proof {
                assert(waited_for(pid, children@[i as int].0));
            }
        } else {
            proof {
                assert(!waited_for(pid, children@[i as int].0));
            }
        }
        proof {
            if any {
                let j = choose|j: int| (0 <= j < i && waited_for(pid, children@[j].0)) || j == i && waited_for(
                    pid,
                    children@[i as int].0,
                );
                assert(0 <= j < i + 1 && waited_for(pid, children@[j].0));
            }
        }
        i = i + 1;
    }
    if !any {
        return Err(Errno::ECHILD);
    }
    let mut i: usize = 0;
    while i < children.len()
        invariant
            i <= children@.len(),
            exists|j: int| 0 <= j < children@.len() && waited_for(pid, #[trigger] children@[j].0),
            forall|j: int| 0 <= j < i ==> !(waited_for(pid, #[trigger] children@[j].0) && children@[j].1),
        decreases children@.len() - i,
    {
        if (pid == -1 || pid as usize as u64 == children[i].0) && children[i].1 {
            return Ok(WaitStep::Reap(i));
        }
        i = i + 1;
    }
    Ok(WaitStep::Wait)
}

/// The status that `wait4` writes back for exit code `exit_code`: the code shifted into the
/// second byte.
pub fn wait_status(exit_code: i32) -> (r: i32)
    ensures
        r == (exit_code << 8u32),
{
    exit_code << 8
}

} // verus!
