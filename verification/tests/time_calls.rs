use kernel::fs_calls::TimeSpec;
use kernel::process::{TaskTree, INITPROC_PID};
use kernel::scheduler::TaskManager;
use kernel::task::TaskStatus;
use kernel::time_calls::{sys_clock_gettime, sys_clock_nanosleep, sys_gettimeofday, sys_nanosleep, sys_times};

#[test]
fn clock_reads() {
    assert_eq!(sys_clock_gettime(25_000_001), (2, 80));
    let t = sys_gettimeofday(12_500_000 + 6_250_000);
    assert_eq!((t.sec, t.usec), (1, 500_000));
    let tms = sys_times(25_000);
    assert_eq!(tms.tms_utime, 2000);
    assert_eq!(tms.tms_cstime, 2000);
}

#[test]
fn sleeping_puts_the_task_among_the_hanging() {
    let mut t = TaskTree::new();
    t.add_root(INITPROC_PID);
    t.fork(0, 1, false);
    let mut m = TaskManager::new();
    assert_eq!(sys_nanosleep(&mut t, &mut m, 1, 1000, TimeSpec { tv_sec: 1, tv_nsec: 5 }), 0);
    assert_eq!(t.get(1).unwrap().status, TaskStatus::Hanging);
    assert_eq!(m.check_hanging(1_000_001_004), None);
    assert_eq!(m.check_hanging(1_000_001_005), Some(1));
    t.set_status(1, TaskStatus::Running);
    assert_eq!(sys_clock_nanosleep(&mut t, &mut m, 1, 500, 1, TimeSpec { tv_sec: 0, tv_nsec: 400 }), 0);
    assert_eq!(t.get(1).unwrap().status, TaskStatus::Running);
    assert_eq!(m.next_task(u64::MAX), None);
    assert_eq!(sys_clock_nanosleep(&mut t, &mut m, 1, 500, 1, TimeSpec { tv_sec: 0, tv_nsec: 900 }), 0);
    assert_eq!(m.check_hanging(899), None);
    assert_eq!(m.check_hanging(900), Some(1));
}
