//! The system calls that read the clock or sleep: `clock_gettime`, `gettimeofday`,
//! `times`, `nanosleep`, `clock_nanosleep`.
use vstd::prelude::*;
use crate::fs_calls::TimeSpec;
use crate::process::{hanging_current_and_run_next, same_but_status, TaskTree};
use crate::scheduler::{HangingTask, TaskManager};
use crate::task::TaskStatus;
use crate::timer::{get_time_ms, get_timeval, TimeVal};

verus! {

/// What `clock_gettime` writes at tick count `ticks`: the whole seconds and the
/// nanoseconds past them (80 per tick).
pub fn sys_clock_gettime(ticks: u64) -> (r: (u64, u64))
    ensures
        r.0 == ticks / 12_500_000,
        r.1 == (ticks % 12_500_000) * 80,
{
    let sec = ticks / crate::config::CLOCK_FREQ;
    let nsec = (ticks % crate::config::CLOCK_FREQ) * (crate::timer::NSEC_PER_SEC / crate::config::CLOCK_FREQ);
    (sec, nsec)
}

/// What `gettimeofday` writes at tick count `ticks` (see [`get_timeval`]).
pub fn sys_gettimeofday(ticks: u64) -> (r: TimeVal)
    ensures
        r.sec == ticks / 12_500_000,
        r.usec == (ticks % 12_500_000) * 1_000_000 / 12_500_000,
{
    get_timeval(ticks)
}

/// The times that `times` reports: the system, user, and children's times all read the
/// milliseconds since boot times 1000.
#[derive(Copy, Clone, PartialEq, Eq, Debug, Structural)]
pub struct Tms {
    pub tms_utime: i64,
    pub tms_stime: i64,
    pub tms_cutime: i64,
    pub tms_cstime: i64,
}

/// What `times` writes at tick count `ticks`.
pub fn sys_times(ticks: u64) -> (r: Tms)
    ensures
        r.tms_utime == (ticks / 12_500) * 1000,
        r.tms_stime == r.tms_utime,
        r.tms_cutime == r.tms_utime,
        r.tms_cstime == r.tms_utime,
{
    let ms = get_time_ms(ticks);
    assert(ms <= u64::MAX / 12_500);
    let t = (ms * 1000) as i64;
    Tms { tms_utime: t, tms_stime: t, tms_cutime: t, tms_cstime: t }
}

/// The nanoseconds of a time.
pub open spec fn into_ns(t: TimeSpec) -> int {
    t.tv_sec * 1_000_000_000 + t.tv_nsec
}

/// The nanoseconds of `t`.
fn time_ns(t: TimeSpec) -> (r: u64)
    requires
        into_ns(t) <= u64::MAX,
    ensures
        r == into_ns(t),
{
    t.tv_sec * 1_000_000_000 + t.tv_nsec
}

/// `nanosleep(req)` by task `pid` at `now` nanoseconds: the task sleeps from `now` for the
/// time `req` asks, as [`hanging_current_and_run_next`] puts it to sleep. Answers 0.
pub fn sys_nanosleep(tree: &mut TaskTree, manager: &mut TaskManager, pid: u64, now: u64, req: TimeSpec) -> (r: isize)
    requires
        old(tree).wf(),
        old(tree).nodes().contains_key(pid),
        !(old(tree).nodes()[pid].status is Zombie),
        now + into_ns(req) <= u64::MAX,
    ensures
        r == 0,
        final(tree).wf(),
        final(tree).nodes().dom() == old(tree).nodes().dom(),
        final(tree).nodes()[pid].status == TaskStatus::Hanging,
        same_but_status(old(tree).nodes()[pid], final(tree).nodes()[pid]),
        forall|q: u64| q != pid && old(tree).nodes().contains_key(q) ==> final(tree).nodes()[q] == old(tree).nodes()[q],
        final(manager).hanging() == old(manager).hanging().insert(
            HangingTask { wake_up_time: (now + into_ns(req)) as u64, task: pid },
        ),
        final(manager).ready() == old(manager).ready(),
        final(manager).waiting() == old(manager).waiting(),
{
    let len = time_ns(req);
    hanging_current_and_run_next(tree, manager, pid, now, len);
    0
}

/// `clock_nanosleep(clock, flags, req)` by task `pid` at `now` nanoseconds: with flag 1
/// (`TIMER_ABSTIME`) the task sleeps until the time `req` names, and not at all when that
/// time has come; with other flags as `nanosleep`. Answers 0.
pub fn sys_clock_nanosleep(
    tree: &mut TaskTree,
    manager: &mut TaskManager,
    pid: u64,
    now: u64,
    flags: isize,
    req: TimeSpec,
) -> (r: isize)
    requires
        old(tree).wf(),
        old(tree).nodes().contains_key(pid),
        !(old(tree).nodes()[pid].status is Zombie),
        into_ns(req) <= u64::MAX,
        flags != 1 ==> now + into_ns(req) <= u64::MAX,
    ensures
        r == 0,
        final(tree).wf(),
        ({
            let sleeps = flags != 1 || into_ns(req) > now;
            let wake = if flags == 1 {
                into_ns(req)
            } else {
                now + into_ns(req)
            };
            if sleeps {
                &&& final(tree).nodes().dom() == old(tree).nodes().dom()
                &&& final(tree).nodes()[pid].status == TaskStatus::Hanging
                &&& same_but_status(old(tree).nodes()[pid], final(tree).nodes()[pid])
                &&& forall|q: u64| q != pid && old(tree).nodes().contains_key(q) ==> final(tree).nodes()[q] == old(tree).nodes()[q]
                &&& final(manager).hanging() == old(manager).hanging().insert(
                    HangingTask { wake_up_time: wake as u64, task: pid },
                )
                &&& final(manager).ready() == old(manager).ready()
                &&& final(manager).waiting() == old(manager).waiting()
            } else {
                &&& final(tree).nodes() == old(tree).nodes()
                &&& final(manager).hanging() == old(manager).hanging()
                &&& final(manager).ready() == old(manager).ready()
                &&& final(manager).waiting() == old(manager).waiting()
            }
        }),
{
    if flags == 1 {
        let abs_time = time_ns(req);
        if abs_time > now {
            hanging_current_and_run_next(tree, manager, pid, now, abs_time - now);
        }
        0
    } else {
        sys_nanosleep(tree, manager, pid, now, req)
    }
}

} // verus!
