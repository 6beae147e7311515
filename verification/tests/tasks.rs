use kernel::clone::CloneFlags;
use kernel::errno::Errno;
use kernel::process::{sys_geteuid, sys_gettid, sys_getuid, ExitAction, TaskTree, WaitOutcome, INITPROC_PID};
use kernel::task::TaskStatus;

fn family() -> TaskTree {
    let mut t = TaskTree::new();
    t.add_root(INITPROC_PID);
    t.fork(0, 1, false);
    t.fork(1, 2, false);
    t.fork(1, 3, true);
    t
}

#[test]
fn fork_files_children_in_order() {
    let t = family();
    assert_eq!(t.children_status(1), vec![(2, false), (3, false)]);
    assert_eq!(t.children_status(0), vec![(1, false)]);
    let n = t.get(3).unwrap();
    assert_eq!(n.tgid, 1);
    assert_eq!(n.parent, Some(1));
    assert_eq!(n.status, TaskStatus::Ready);
    assert_eq!(t.get(2).unwrap().tgid, 2);
    assert!(t.get(9).is_none());
    assert!(t.contains(2) && !t.contains(9));
}

#[test]
fn thread_exit_leaves_the_tree() {
    let mut t = family();
    let a = t.exit_current_and_run_next(3, 0);
    assert_eq!(a, ExitAction { clear_child_tid: None, is_child_thread: true });
    assert!(!t.contains(3));
    assert_eq!(t.children_status(1), vec![(2, false)]);
}

#[test]
fn process_exit_hands_children_to_initproc() {
    let mut t = family();
    t.exit_current_and_run_next(3, 0);
    assert_eq!(t.sys_set_tid_address(2, 0x1000), 2);
    let a = t.exit_current_and_run_next(1, 5);
    assert_eq!(a, ExitAction { clear_child_tid: None, is_child_thread: false });
    let n = t.get(1).unwrap();
    assert_eq!(n.status, TaskStatus::Zombie);
    assert_eq!(n.exit_code, 5);
    assert_eq!(t.get(2).unwrap().parent, Some(0));
    assert_eq!(t.children_status(0), vec![(1, true), (2, false)]);
    let a = t.exit_current_and_run_next(2, 7);
    assert_eq!(a.clear_child_tid, Some(0x1000));
}

#[test]
fn wait4_reaps_exited_children_first_come_first() {
    let mut t = family();
    t.exit_current_and_run_next(3, 0);
    t.exit_current_and_run_next(1, 5);
    assert_eq!(t.sys_wait4(0, 7), Err(Errno::ECHILD));
    assert_eq!(t.sys_wait4(0, 2), Ok(WaitOutcome::Wait));
    assert_eq!(t.sys_wait4(0, -1), Ok(WaitOutcome::Reaped { pid: 1, status: 5 << 8 }));
    assert!(!t.contains(1));
    assert_eq!(t.sys_wait4(0, -1), Ok(WaitOutcome::Wait));
    t.exit_current_and_run_next(2, 1);
    assert_eq!(t.sys_wait4(0, 2), Ok(WaitOutcome::Reaped { pid: 2, status: 256 }));
    assert_eq!(t.sys_wait4(0, -1), Err(Errno::ECHILD));
    assert_eq!(t.children_status(0), vec![]);
}

#[test]
fn reap_returns_id_and_exit_code() {
    let mut t = family();
    t.exit_current_and_run_next(2, 9);
    assert_eq!(t.reap(1, 0), (2, 9));
    assert_eq!(t.children_status(1), vec![(3, false)]);
}

#[test]
fn ids_of_a_task() {
    let t = family();
    assert_eq!(t.sys_getpid(3), 3);
    assert_eq!(t.sys_getppid(3), 1);
    assert_eq!(t.sys_getppid(2), 2);
    assert_eq!(sys_getuid(), 0);
    assert_eq!(sys_geteuid(), 0);
    assert_eq!(sys_gettid(), 0);
}

#[test]
fn state_changes_of_a_running_task() {
    let mut t = family();
    let mut m = kernel::scheduler::TaskManager::new();
    t.set_status(2, TaskStatus::Running);
    assert_eq!(t.get(2).unwrap().status, TaskStatus::Running);
    assert_eq!(kernel::process::suspend_current_and_run_next(&mut t, 2), 0);
    assert_eq!(t.get(2).unwrap().status, TaskStatus::Ready);
    kernel::process::block_current_and_run_next(&mut t, &mut m, 2);
    assert_eq!(t.get(2).unwrap().status, TaskStatus::Blocking);
    kernel::process::hanging_current_and_run_next(&mut t, &mut m, 1, 100, 20);
    assert_eq!(t.get(1).unwrap().status, TaskStatus::Hanging);
    assert_eq!(m.next_task(119), None);
    m.unblock_task(2);
    m.add(3);
    assert_eq!(m.next_task(120), Some(1));
    assert_eq!(m.next_task(120), Some(2));
    assert_eq!(m.next_task(120), Some(3));
    assert_eq!(m.next_task(120), None);
}

#[test]
fn kill_and_tkill_add_pending_signals() {
    let mut t = family();
    assert_eq!(t.sys_kill(2, 0), Ok(0));
    assert_eq!(t.sys_kill(2, 10), Ok(0));
    assert_eq!(t.get(2).unwrap().pending_signals.bits, 1 << 9);
    assert_eq!(t.sys_kill(2, 1), Err(Errno::EINVAL));
    assert_eq!(t.sys_kill(42, 10), Ok(0));
    assert_eq!(t.sys_tkill(1, 42, 10), Err(Errno::ESRCH));
    assert_eq!(t.sys_tkill(1, 0, 15), Ok(0));
    assert_eq!(t.get(1).unwrap().pending_signals.bits, 1 << 14);
    t.exit_current_and_run_next(2, 0);
    assert_eq!(t.sys_tkill(1, 2, 10), Err(Errno::ESRCH));
    assert_eq!(t.sys_kill(2, 10), Ok(0));
}

#[test]
fn sigprocmask_blocks_and_answers_the_old_mask() {
    let mut t = family();
    let set = kernel::signals::SigMask { bits: (1 << 10) | (1 << 9) };
    assert_eq!(t.sys_sigprocmask(2, 0, Some(set)).bits, 0);
    // SIGKILL (bit 9) cannot be blocked
    assert_eq!(t.get(2).unwrap().sigmask.bits, 1 << 10);
    assert_eq!(t.sys_sigprocmask(2, 7, None).bits, 1 << 10);
    t.fork(2, 5, false);
    assert_eq!(t.get(5).unwrap().sigmask.bits, 1 << 10);
    assert_eq!(t.sys_sigprocmask(2, 1, Some(set)).bits, 1 << 10);
    assert_eq!(t.get(2).unwrap().sigmask.bits, 0);
}

#[test]
fn clone_makes_a_ready_child() {
    let mut t = family();
    let mut m = kernel::scheduler::TaskManager::new();
    let (plan, pid) = kernel::process::sys_do_fork(&mut t, &mut m, 2, 7, 17, 0x5000);
    assert_eq!(pid, 7);
    assert!(!plan.thread && !plan.share_vm && !plan.child_cleartid);
    assert_eq!(plan.tgid, 7);
    assert_eq!(t.get(7).unwrap().clear_child_tid, 0);
    assert_eq!(t.children_status(2), vec![(7, false)]);
    let flags = CloneFlags::VM | CloneFlags::THREAD | CloneFlags::CHILD_CLEARTID | 17;
    let (plan, pid) = kernel::process::sys_do_fork(&mut t, &mut m, 2, 9, flags, 0x5000);
    assert_eq!(pid, 9);
    assert!(plan.thread && plan.share_vm && plan.child_cleartid);
    assert_eq!(plan.tgid, 2);
    assert_eq!(plan.private_tid, 7);
    let n = t.get(9).unwrap();
    assert_eq!(n.tgid, 2);
    assert_eq!(n.clear_child_tid, 0x5000);
    assert_eq!(m.fetch(), Some(7));
    assert_eq!(m.fetch(), Some(9));
}

#[test]
fn initproc_exit_yield_and_signals() {
    let mut t = TaskTree::new();
    let mut m = kernel::scheduler::TaskManager::new();
    kernel::process::add_initproc(&mut t, &mut m);
    assert_eq!(m.fetch(), Some(0));
    t.fork(0, 1, false);
    t.fork(0, 2, false);
    t.set_status(1, TaskStatus::Running);
    assert_eq!(kernel::process::sys_sched_yield(&mut t, 1), 0);
    assert_eq!(t.get(1).unwrap().status, TaskStatus::Ready);
    t.current_add_signal(1, kernel::signals::SigMask { bits: 0x400 });
    t.current_add_signal(1, kernel::signals::SigMask { bits: 0x2 });
    assert_eq!(t.get(1).unwrap().pending_signals.bits, 0x402);
    assert_eq!(t.sys_exit(1, 3).is_child_thread, false);
    assert_eq!(t.get(1).unwrap().exit_code, 3);
    assert_eq!(t.sys_exit_group(2, 4).clear_child_tid, None);
    assert_eq!(t.children_status(0), vec![(1, true), (2, true)]);
}

#[test]
fn fork_task_copies_or_shares_the_files_and_keeps_the_directory() {
    let mut t = family();
    let mut m = kernel::scheduler::TaskManager::new();
    let table: Vec<Option<u32>> = vec![Some(10), None, Some(12)];
    let (plan, id, files) = kernel::process::fork_task(&mut t, &mut m, 1, 5, 17, 0, &table);
    assert_eq!(id, 5);
    assert!(!plan.share_files);
    assert_eq!(files, Some(table.clone()));
    assert_eq!(t.get(5).unwrap().cwd, b"/".to_vec());
    assert_eq!(t.get(5).unwrap().cwd, t.get(1).unwrap().cwd);
    let (plan, _, files) = kernel::process::fork_task(&mut t, &mut m, 1, 6, 17 | CloneFlags::FILES, 0, &table);
    assert!(plan.share_files);
    assert_eq!(files, None);
}
