use kernel::errno::Errno;
use kernel::itimer::{check_interval_timer, sys_getitimer, sys_setitimer, sys_timer_settime, ITimerVal, IntervalTimer, ITIMER_REAL};
use kernel::timer::TimeVal;

fn tv(sec: u64, usec: u64) -> TimeVal {
    TimeVal { sec, usec }
}

#[test]
fn setitimer_then_getitimer_gives_the_setting() {
    let mut timer: Option<IntervalTimer> = None;
    let nv = ITimerVal { it_interval: tv(0, 500_000), it_value: tv(2, 0) };
    assert_eq!(sys_setitimer(ITIMER_REAL, Some(nv), true, &mut timer, tv(10, 0)), Ok(None));
    assert_eq!(timer, Some(IntervalTimer { creation_time: tv(10, 0), timer_value: nv }));
    assert_eq!(sys_getitimer(ITIMER_REAL, true, &timer), Ok(nv));
    let zero = ITimerVal::empty();
    assert_eq!(sys_setitimer(ITIMER_REAL, Some(zero), true, &mut timer, tv(11, 0)), Ok(Some(nv)));
    assert_eq!(timer, None);
    assert_eq!(sys_getitimer(ITIMER_REAL, true, &timer), Ok(zero));
}

#[test]
fn itimer_errors() {
    let mut timer: Option<IntervalTimer> = None;
    assert_eq!(sys_setitimer(ITIMER_REAL, None, false, &mut timer, tv(0, 0)), Err(Errno::EFAULT));
    let nv = ITimerVal { it_interval: tv(0, 0), it_value: tv(1, 0) };
    assert_eq!(sys_setitimer(7, Some(nv), false, &mut timer, tv(0, 0)), Err(Errno::EINVAL));
    assert_eq!(timer, None);
    assert_eq!(sys_getitimer(ITIMER_REAL, false, &timer), Err(Errno::EFAULT));
    assert_eq!(sys_getitimer(-1, true, &timer), Err(Errno::EINVAL));
}

#[test]
fn timer_runs_out_and_repeats_or_stops() {
    let once = ITimerVal { it_interval: tv(0, 0), it_value: tv(1, 0) };
    let mut timer = Some(IntervalTimer::new(once, tv(5, 0)));
    assert!(!check_interval_timer(&mut timer, tv(6, 0)));
    assert!(timer.is_some());
    assert!(check_interval_timer(&mut timer, tv(6, 1)));
    assert_eq!(timer, None);
    assert!(!check_interval_timer(&mut timer, tv(9, 0)));
    let every = ITimerVal { it_interval: tv(0, 250_000), it_value: tv(0, 900_000) };
    let mut timer = Some(IntervalTimer::new(every, tv(5, 0)));
    assert!(check_interval_timer(&mut timer, tv(5, 900_001)));
    let t = timer.unwrap();
    assert_eq!(t.timer_value.it_value, tv(0, 250_000));
    assert_eq!(t.timer_value.it_interval, tv(0, 250_000));
    assert_eq!(t.creation_time, tv(5, 0));
}

#[test]
fn timer_settime_disarms_on_a_zero_value_and_gives_the_previous_setting() {
    let mut timer: Option<IntervalTimer> = None;
    assert_eq!(sys_timer_settime(None, true, &mut timer, tv(1, 0)), None);
    let nv = ITimerVal { it_interval: tv(1, 0), it_value: tv(3, 0) };
    assert_eq!(sys_timer_settime(Some(nv), true, &mut timer, tv(2, 0)), None);
    assert_eq!(timer, Some(IntervalTimer { creation_time: tv(2, 0), timer_value: nv }));
    let zero = ITimerVal::empty();
    assert_eq!(sys_timer_settime(Some(zero), true, &mut timer, tv(4, 0)), Some(nv));
    assert_eq!(timer, None);
    assert_eq!(sys_timer_settime(Some(nv), false, &mut timer, tv(5, 0)), None);
    assert_eq!(timer.unwrap().timer_value, nv);
}

#[test]
fn no_overruns_are_counted() {
    assert_eq!(kernel::itimer::sys_timer_getoverrun(3), 0);
}
