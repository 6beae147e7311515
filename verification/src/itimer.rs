//! The real-time interval timer of a task (`setitimer`, `getitimer`), which sends `SIGALRM`
//! when it runs out.
use vstd::prelude::*;
use crate::errno::Errno;
use crate::timer::TimeVal;

verus! {

/// The timer that counts real time.
pub const ITIMER_REAL: i32 = 0;

/// The timer that counts the time the task runs in user mode.
pub const ITIMER_VIRTUAL: i32 = 1;

/// The timer that counts the time the task runs.
pub const ITIMER_PROF: i32 = 2;

/// A timer setting: the time until it runs out, and the time it is set to again then (zero:
/// it stops).
#[derive(Clone, Copy, Debug, PartialEq, Eq, Structural)]
pub struct ITimerVal {
    pub it_interval: TimeVal,
    pub it_value: TimeVal,
}

/// A running timer: its setting and the time it was set.
#[derive(Clone, Copy, Debug, PartialEq, Eq, Structural)]
pub struct IntervalTimer {
    pub creation_time: TimeVal,
    pub timer_value: ITimerVal,
}

/// A time in microseconds.
pub open spec fn micros(t: TimeVal) -> int {
    t.sec * 1_000_000 + t.usec
}

/// The zero time.
pub open spec fn is_zero(t: TimeVal) -> bool {
    t.sec == 0 && t.usec == 0
}

impl ITimerVal {
    /// The setting of a stopped timer.
    pub fn empty() -> (r: ITimerVal)
        ensures
            is_zero(r.it_interval),
            is_zero(r.it_value),
    {
        ITimerVal { it_interval: TimeVal { sec: 0, usec: 0 }, it_value: TimeVal { sec: 0, usec: 0 } }
    }
}

impl IntervalTimer {
    /// A timer set to `timer_value` at `now`.
    pub fn new(timer_value: ITimerVal, now: TimeVal) -> (r: IntervalTimer)
        ensures
            r.timer_value == timer_value,
            r.creation_time == now,
    {
        IntervalTimer { creation_time: now, timer_value }
    }
}

/// Microseconds of a time, exactly.
fn to_micros(t: TimeVal) -> (r: u128)
    ensures
        r == micros(t),
{
    t.sec as u128 * 1_000_000 + t.usec as u128
}

/// Whether more time than `value` has passed from `start` to `now`.
fn has_passed(start: TimeVal, now: TimeVal, value: TimeVal) -> (r: bool)
    ensures
        r == (micros(now) - micros(start) > micros(value)),
{
    to_micros(now) > to_micros(start) + to_micros(value)
}

/// A look at the timer of a task at time `now`: when more time than its value has passed
/// since it was set, it runs out: it stops when it has no interval, else its value becomes
/// its interval; and `SIGALRM` is due (the result).
pub fn check_interval_timer(timer: &mut Option<IntervalTimer>, now: TimeVal) -> (r: bool)
    ensures
        match *old(timer) {
            None => !r && *final(timer) == None::<IntervalTimer>,
            Some(t) => {
                let out = micros(now) - micros(t.creation_time) > micros(t.timer_value.it_value);
                &&& r == out
                &&& !out ==> *final(timer) == Some(t)
                &&& out && is_zero(t.timer_value.it_interval) ==> *final(timer) == None::<IntervalTimer>
                &&& out && !is_zero(t.timer_value.it_interval) ==> *final(timer) == Some(
                    IntervalTimer {
                        timer_value: ITimerVal { it_value: t.timer_value.it_interval, ..t.timer_value },
                        ..t
                    },
                )
            },
        },
{
    match *timer {
        None => false,
        Some(t) => {
            if has_passed(t.creation_time, now, t.timer_value.it_value) {
                if t.timer_value.it_interval.sec == 0 && t.timer_value.it_interval.usec == 0 {
                    *timer = None;
                } else {
                    let mut t2 = t;
                    t2.timer_value.it_value = t.timer_value.it_interval;
                    *timer = Some(t2);
                }
                true
            } else {
                false
            }
        },
    }
}

/// `setitimer(which, new_value)` at time `now` on the timer of a task; `new_value` is
/// `None` for a null pointer, and `want_old` says whether the old value is asked for.
/// `EFAULT` without a new value, `EINVAL` for an unknown timer. Else the real timer stops
/// when the new value is all zero, and is set to it at `now` otherwise; the result holds
/// the old setting to copy out when it was asked for and the timer was running. The
/// virtual and profiling timers are a fatal error.
pub fn sys_setitimer(
    which: i32,
    new_value: Option<ITimerVal>,
    want_old: bool,
    timer: &mut Option<IntervalTimer>,
    now: TimeVal,
) -> (r: Result<Option<ITimerVal>, Errno>)
    requires
        new_value is Some ==> which != ITIMER_VIRTUAL && which != ITIMER_PROF,
    ensures
        new_value is None ==> r == Err::<Option<ITimerVal>, Errno>(Errno::EFAULT) && *final(timer) == *old(
            timer,
        ),
        new_value is Some && which != ITIMER_REAL ==> r == Err::<Option<ITimerVal>, Errno>(Errno::EINVAL)
            && *final(timer) == *old(timer),
        new_value is Some && which == ITIMER_REAL ==> {
            let nv = new_value->0;
            &&& r == Ok::<Option<ITimerVal>, Errno>(
                if want_old && (*old(timer)) is Some {
                    Some((*old(timer))->0.timer_value)
                } else {
                    None
                },
            )
            &&& *final(timer) == if is_zero(nv.it_interval) && is_zero(nv.it_value) {
                None::<IntervalTimer>
            } else {
                Some(IntervalTimer { creation_time: now, timer_value: nv })
            }
        },
{
    let nv = match new_value {
        None => {
            return Err(Errno::EFAULT);
        },
        Some(v) => v,
    };
    if which != ITIMER_REAL {
        return Err(Errno::EINVAL);
    }
    let old_value = if want_old {
        match *timer {
            Some(t) => Some(t.timer_value),
            None => None,
        }
    } else {
        None
    };
    if nv.it_interval.sec == 0 && nv.it_interval.usec == 0 && nv.it_value.sec == 0 && nv.it_value.usec == 0 {
        *timer = None;
    } else {
        *timer = Some(IntervalTimer::new(nv, now));
    }
    Ok(old_value)
}

/// `getitimer(which)` on the timer of a task; `want` says whether the pointer to write to is
/// not null. `EFAULT` for a null pointer, `EINVAL` for an unknown timer; else the setting
/// of the real timer, all zero when it is stopped. The virtual and profiling timers are a
/// fatal error.
pub fn sys_getitimer(which: i32, want: bool, timer: &Option<IntervalTimer>) -> (r: Result<ITimerVal, Errno>)
    requires
        want ==> which != ITIMER_VIRTUAL && which != ITIMER_PROF,
    ensures
        !want ==> r == Err::<ITimerVal, Errno>(Errno::EFAULT),
        want && which != ITIMER_REAL ==> r == Err::<ITimerVal, Errno>(Errno::EINVAL),
        want && which == ITIMER_REAL ==> match *timer {
            Some(t) => r == Ok::<ITimerVal, Errno>(t.timer_value),
            None => r matches Ok(v) && is_zero(v.it_interval) && is_zero(v.it_value),
        },
{
    if !want {
        return Err(Errno::EFAULT);
    }
    if which != ITIMER_REAL {
        return Err(Errno::EINVAL);
    }
    match *timer {
        Some(t) => Ok(t.timer_value),
        None => Ok(ITimerVal::empty()),
    }
}

/// `timer_settime(.., new_value)` at time `now` on the timer of a task; `new_value` is
/// `None` for a null pointer, and `want_old` says whether the old value is asked for. An
/// all-zero new value disarms the timer; another sets it at `now`. When the old value is
/// asked for and the timer ran before the call, the result holds the setting it had then.
/// Answers nothing else (the call returns 0).
pub fn sys_timer_settime(
    new_value: Option<ITimerVal>,
    want_old: bool,
    timer: &mut Option<IntervalTimer>,
    now: TimeVal,
) -> (r: Option<ITimerVal>)
    ensures
        *final(timer) == match new_value {
            Some(nv) => if is_zero(nv.it_interval) && is_zero(nv.it_value) {
                None::<IntervalTimer>
            } else {
                Some(IntervalTimer { creation_time: now, timer_value: nv })
            },
            None => *old(timer),
        },
        r == if want_old && (*old(timer)) is Some {
            Some((*old(timer))->0.timer_value)
        } else {
            None::<ITimerVal>
        },
{
    let previous = if want_old {
        match *timer {
            Some(t) => Some(t.timer_value),
            None => None,
        }
    } else {
        None
    };
    if let Some(nv) = new_value {
        if nv.it_interval.sec == 0 && nv.it_interval.usec == 0 && nv.it_value.sec == 0 && nv.it_value.usec == 0 {
            *timer = None;
        } else {
            *timer = Some(IntervalTimer::new(nv, now));
        }
    }
    previous
}

/// `timer_getoverrun`: no timer overruns are counted; answers 0.
pub fn sys_timer_getoverrun(timer_id: usize) -> (r: isize)
    ensures
        r == 0,
{
    0
}

} // verus!
