use kernel::fd_table::{sys_ioctl, sys_pipe2, TCGETS, TIOCGWINSZ};
use kernel::signal_delivery::{kill_decision, sys_sigaction};
use kernel::fd_table::{sys_lseek, SEEK_CUR, SEEK_END, SEEK_SET};
use kernel::clone::{clone_plan, CloneFlags};
use kernel::fs_calls::{select_pass, utimensat_target, utimensat_times, FdSet, InodeTime, TimeSpec, UtimeTarget, AT_FDCWD, UTIME_NOW, UTIME_OMIT};
use kernel::errno::Errno;
use kernel::fd_table::{sys_fcntl, FcntlAction, F_DUPFD_CLOEXEC, F_GETFD, F_GETFL, F_SETFD, F_SETFL};
use kernel::loader::AuxEntry;
use kernel::signal_delivery::{exec_signal_handlers, signal_frame, sigreturn_frame, SignalDecision};
use kernel::signals::{SigAction, SigMask, sigprocmask_apply, SIG_IGN};
use kernel::syscall_id::SyscallId;
use kernel::trap::{lazy_fault_signal, trap_cause, user_trap_action, TrapAction, TrapCause};
use kernel::user_buffer::UserBuffer;
use kernel::ustack::init_ustack;

#[test]
fn clone_of_a_process() {
    let p = clone_plan(17, 5, 9).unwrap();
    assert_eq!(p.tgid, 9);
    assert_eq!(p.private_tid, 0);
    assert!(!p.thread && !p.share_vm && !p.share_files && !p.share_sighand);
    assert!(!p.parent_settid && !p.child_settid && !p.child_cleartid && !p.settls);
}

#[test]
fn clone_of_a_thread() {
    let flags = CloneFlags::VM | CloneFlags::FS | CloneFlags::FILES | CloneFlags::SIGHAND | CloneFlags::THREAD
        | CloneFlags::SETTLS | CloneFlags::PARENT_SETTID | CloneFlags::CHILD_CLEARTID;
    let p = clone_plan(flags, 5, 9).unwrap();
    assert_eq!(p.tgid, 5);
    assert_eq!(p.private_tid, 4);
    assert!(p.thread && p.share_vm && p.share_files && p.share_sighand);
    assert!(p.parent_settid && !p.child_settid && p.child_cleartid && p.settls);
    // a thread whose id is below its parent's is refused
    assert!(clone_plan(flags, 9, 5).is_none());
    // an unknown flag is refused
    assert!(clone_plan(1u64 << 40, 5, 9).is_none());
}

#[test]
fn initial_stack_layout() {
    let args = vec![b"sh".to_vec(), b"-c".to_vec()];
    let envs = vec![b"A=1".to_vec()];
    let auxv = vec![AuxEntry(6, 4096), AuxEntry(0, 0)];
    let l = init_ustack(0x1000, &args, &envs, &auxv).unwrap();
    // "A=1\0" at 0xffc, "sh\0" at 0xff9, "-c\0" at 0xff6
    assert_eq!(l.env_ptrs, vec![0xffc]);
    assert_eq!(l.arg_ptrs, vec![0xff9, 0xff6]);
    // zero word at 0xfee, auxiliary entries at 0xfde and 0xfce, zero word at 0xfc6
    assert_eq!(l.aux_addrs, vec![0xfde, 0xfce]);
    assert_eq!(l.envp_base, 0xfbe);
    assert_eq!(l.argv_base, 0xfa6);
    assert_eq!(l.sp, 0xf9e);
    assert_eq!(
        l.words,
        vec![(0xfee, 0), (0xfc6, 0), (0xfbe, 0xffc), (0xfb6, 0), (0xfa6, 0xff9), (0xfae, 0xff6), (0xf9e, 2)]
    );
    // too little room
    assert!(init_ustack(0x50, &args, &envs, &auxv).is_none());
    assert!(init_ustack(0x62, &args, &envs, &auxv).is_some());
    assert!(init_ustack(0x61, &args, &envs, &auxv).is_none());
}

fn actions() -> Vec<SigAction> {
    let mut v = Vec::new();
    for _ in 0..64 {
        v.push(SigAction::new());
    }
    v
}

#[test]
fn no_pending_signal_does_nothing() {
    let mut pending = SigMask { bits: 0 };
    let mut mask = SigMask { bits: 0x4 };
    assert_eq!(exec_signal_handlers(&mut pending, &mut mask, &actions()), SignalDecision::Return);
    assert_eq!(mask.bits, 0x4);
}

#[test]
fn sigkill_ends_the_task() {
    let mut pending = SigMask { bits: 1 << 9 };
    let mut mask = SigMask { bits: 0 };
    assert_eq!(exec_signal_handlers(&mut pending, &mut mask, &actions()), SignalDecision::Exit(-9));
    assert_eq!(pending.bits, 0);
}

#[test]
fn ignored_signal_is_passed_over_and_the_next_is_handled() {
    let mut acts = actions();
    acts[2].sa_handler = SIG_IGN;
    acts[10].sa_handler = 0x1234;
    acts[10].sa_mask = SigMask { bits: 1 << 12 };
    let mut pending = SigMask { bits: (1 << 2) | (1 << 10) | (1 << 14) };
    let mut mask = SigMask { bits: 1 << 14 };
    let d = exec_signal_handlers(&mut pending, &mut mask, &acts);
    assert_eq!(d, SignalDecision::Handle { signum: 10, handler: 0x1234, old_mask: SigMask { bits: 1 << 14 } });
    // both taken out of the pending set, the masked one kept
    assert_eq!(pending.bits, 1 << 14);
    // the handler runs with its mask, the signal itself and the old mask blocked
    assert_eq!(mask.bits, (1 << 12) | (1 << 10) | (1 << 14));
}

#[test]
fn default_action_of_another_signal_drops_it() {
    let mut pending = SigMask { bits: 1 << 17 };
    let mut mask = SigMask { bits: 0 };
    assert_eq!(exec_signal_handlers(&mut pending, &mut mask, &actions()), SignalDecision::Return);
    assert_eq!(pending.bits, 0);
}

#[test]
fn handler_frame_below_the_stack() {
    let f = signal_frame(0x10000, 0x100, 0x80, 0x120).unwrap();
    assert_eq!(f.ucontext_ptr, 0xff00);
    assert_eq!(f.siginfo_ptr, 0xfe80);
    assert_eq!(f.sigcontext_ptr, 0xfd60);
    assert!(signal_frame(0x100, 0x80, 0x80, 1).is_none());
}

#[test]
fn block_then_unblock_gives_back_the_mask() {
    let old = SigMask { bits: 1 << 3 };
    let set = SigMask { bits: (1 << 5) | (1 << 9) };
    let blocked = sigprocmask_apply(old, 0, set);
    // SIGKILL is never blocked
    assert_eq!(blocked.bits, (1 << 3) | (1 << 5));
    assert_eq!(sigprocmask_apply(blocked, 1, set).bits, old.bits);
    assert_eq!(sigprocmask_apply(old, 2, set).bits, 1 << 5);
}

#[test]
fn trap_causes() {
    assert_eq!(trap_cause(8), TrapCause::UserEnvCall);
    assert_eq!(trap_cause(13), TrapCause::MemoryFault);
    assert_eq!(trap_cause(15), TrapCause::MemoryFault);
    assert_eq!(trap_cause(12), TrapCause::InstructionFault);
    assert_eq!(trap_cause(2), TrapCause::IllegalInstruction);
    assert_eq!(trap_cause((1u64 << 63) | 5), TrapCause::SupervisorTimer);
    assert_eq!(trap_cause((1u64 << 63) | 9), TrapCause::Unsupported);
    assert_eq!(trap_cause(3), TrapCause::Unsupported);
}

#[test]
fn trap_actions() {
    assert_eq!(user_trap_action(8, 0, 64), TrapAction::Syscall { id: 64, sigreturn: false });
    assert_eq!(user_trap_action(8, 0, 139), TrapAction::Syscall { id: 139, sigreturn: true });
    assert_eq!(user_trap_action(13, 0x1234, 0), TrapAction::PageFault { va: 0x1234, beyond: false });
    assert_eq!(user_trap_action(2, 0, 0), TrapAction::Signal(4));
    assert_eq!(user_trap_action(1, 0, 0), TrapAction::Signal(11));
    assert_eq!(user_trap_action((1u64 << 63) | 5, 0, 0), TrapAction::Yield);
    assert_eq!(user_trap_action(3, 0, 0), TrapAction::Panic);
    assert_eq!(lazy_fault_signal(0), None);
    assert_eq!(lazy_fault_signal(-2), Some(11));
}

#[test]
fn utimensat_times_asked() {
    let a = TimeSpec { tv_sec: 100, tv_nsec: UTIME_NOW };
    let m = TimeSpec { tv_sec: 200, tv_nsec: UTIME_OMIT };
    assert_eq!(utimensat_times(Some((a, m)), 77), InodeTime { access_time: 77, modify_time: 0 });
    let b = TimeSpec { tv_sec: 5, tv_nsec: 10 };
    assert_eq!(utimensat_times(Some((b, b)), 77), InodeTime { access_time: 5, modify_time: 5 });
    assert_eq!(utimensat_times(None, 77), InodeTime { access_time: 0, modify_time: 0 });
}

#[test]
fn utimensat_targets() {
    let table: Vec<Option<u32>> = vec![Some(7), None];
    assert_eq!(utimensat_target(AT_FDCWD, true, &table), Ok(UtimeTarget::Path));
    assert_eq!(utimensat_target(0, false, &table), Ok(UtimeTarget::File(7)));
    assert_eq!(utimensat_target(1, false, &table), Err(Errno::DISCARD));
    assert_eq!(utimensat_target(5, false, &table), Ok(UtimeTarget::Nothing));
    assert_eq!(utimensat_target(-3, false, &table), Ok(UtimeTarget::Nothing));
}

#[test]
fn fd_set_operations() {
    let mut s = FdSet::new();
    s.set_fd(3);
    s.set_fd(64);
    s.set_fd(1023);
    assert!(s.is_set(3) && s.is_set(64) && s.is_set(1023));
    assert!(!s.is_set(4));
    assert_eq!(s.count(), 3);
    assert_eq!(s.get_fd_vec(), vec![3, 64, 1023]);
    s.clear_fd(64);
    assert_eq!(s.get_fd_vec(), vec![3, 1023]);
    let bytes = s.as_bytes();
    assert_eq!(bytes.len(), 128);
    assert_eq!(bytes[0], 8);
    let t = FdSet::from_bytes(&bytes);
    assert_eq!(t.get_fd_vec(), vec![3, 1023]);
    s.clear_all();
    assert_eq!(s.count(), 0);
}

#[test]
fn select_pass_finds_ready_descriptors() {
    let mut set = FdSet::new();
    set.set_fd(0);
    set.set_fd(1);
    set.set_fd(2);
    let mut fds = set.get_fd_vec();
    let table = vec![Some(true), Some(false), Some(true)];
    let (n, not_ready) = select_pass(&mut fds, &mut set, 3, &table).unwrap();
    assert_eq!(n, 2);
    assert!(not_ready);
    assert_eq!(fds, vec![1024, 1, 1024]);
    assert_eq!(set.get_fd_vec(), vec![0, 2]);
    // a second pass looks only at the one not ready yet
    let table = vec![Some(true), Some(true), Some(true)];
    let (n, not_ready) = select_pass(&mut fds, &mut set, 3, &table).unwrap();
    assert_eq!(n, 1);
    assert!(!not_ready);
    assert_eq!(set.get_fd_vec(), vec![0, 1, 2]);
    // a descriptor without an open file
    let mut fds = vec![0, 1];
    let mut set = FdSet::new();
    let table = vec![Some(true), None, Some(true)];
    assert_eq!(select_pass(&mut fds, &mut set, 2, &table), Err(Errno::EBADF));
    // descriptors from nfds on are not looked at
    let mut fds = vec![0, 1];
    assert_eq!(select_pass(&mut fds, &mut set, 1, &table), Ok((1, false)));
}

#[test]
fn fcntl_commands() {
    let mut table: Vec<Option<u32>> = vec![Some(10), None, Some(12)];
    assert_eq!(sys_fcntl(&mut table, 64, 0, F_SETFL, 0o2000, 99), Ok((0, FcntlAction::SetStatusFlags { file: 10, flags: 0o2000 })));
    assert_eq!(sys_fcntl(&mut table, 64, 1, F_SETFL, 0, 99), Err(Errno::EBADF));
    assert_eq!(sys_fcntl(&mut table, 64, 2, F_GETFD, 0, 99), Ok((0, FcntlAction::ReportCloexec(12))));
    assert_eq!(sys_fcntl(&mut table, 64, 2, F_SETFD, 1, 99), Ok((0, FcntlAction::SetCloexec(12))));
    assert_eq!(sys_fcntl(&mut table, 64, 2, F_SETFD, 0, 99), Ok((0, FcntlAction::Nothing)));
    assert_eq!(sys_fcntl(&mut table, 64, 7, F_GETFL, 0, 99), Ok((4000, FcntlAction::Nothing)));
    assert_eq!(sys_fcntl(&mut table, 64, 0, 77, 0, 99), Err(Errno::EINVAL));
    assert_eq!(table, vec![Some(10), None, Some(12)]);
}

#[test]
fn fcntl_dup_cloexec_picks_the_lowest_free_from_arg() {
    let mut table: Vec<Option<u32>> = vec![Some(10), None, Some(12)];
    assert_eq!(sys_fcntl(&mut table, 64, 0, F_DUPFD_CLOEXEC, 1, 99), Ok((1, FcntlAction::SetCloexec(10))));
    assert_eq!(table, vec![Some(10), Some(10), Some(12)]);
    assert_eq!(sys_fcntl(&mut table, 64, 2, F_DUPFD_CLOEXEC, 5, 99), Ok((5, FcntlAction::SetCloexec(12))));
    assert_eq!(table, vec![Some(10), Some(10), Some(12), None, None, Some(12)]);
    let mut table: Vec<Option<u32>> = vec![None, None, Some(3)];
    assert_eq!(sys_fcntl(&mut table, 64, 1, F_DUPFD_CLOEXEC, 0, 99), Err(Errno::EBADF));
    assert_eq!(table, vec![Some(99), None, Some(3)]);
    // the picked entry is the descriptor itself: it holds the placeholder when read
    let mut table: Vec<Option<u32>> = vec![None, Some(3)];
    assert_eq!(sys_fcntl(&mut table, 64, 0, F_DUPFD_CLOEXEC, 0, 99), Ok((0, FcntlAction::SetCloexec(99))));
    assert_eq!(table, vec![Some(99), Some(3)]);
}

#[test]
fn syscall_number_round_trip() {
    for v in 0..400usize {
        if let Some(id) = SyscallId::from_number(v) {
            assert_eq!(id.number(), v);
        }
    }
    assert_eq!(SyscallId::from_number(64).unwrap(), SyscallId::SYS_WRITE);
    assert!(SyscallId::from_number(9999).is_none());
}

#[test]
fn read_after_write_gives_back_the_bytes() {
    let mut b = UserBuffer::wrap(vec![vec![0u8; 3], vec![0u8; 4]]);
    let w = [1u8, 2, 3, 4, 5];
    assert_eq!(b.write(&w), 5);
    let mut d = [9u8; 5];
    assert_eq!(b.read(&mut d), 5);
    assert_eq!(d, w);
}

#[test]
fn sigaction_records_and_returns_the_old_action() {
    let mut acts = actions();
    let mut a = SigAction::new();
    a.sa_handler = 0x4000;
    a.sa_mask = SigMask { bits: (1 << 9) | (1 << 2) | (1 << 11) };
    let old = sys_sigaction(&mut acts, 10, Some(a)).unwrap().unwrap();
    assert_eq!(old.sa_handler, 0);
    assert_eq!(acts[10].sa_handler, 0x4000);
    // SIGKILL and SIGSEGV cannot be blocked by a handler's mask
    assert_eq!(acts[10].sa_mask.bits, 1 << 2);
    assert!(matches!(sys_sigaction(&mut acts, 10, None), Ok(None)));
    assert!(matches!(sys_sigaction(&mut acts, 9, Some(a)), Err(Errno::EINVAL)));
    assert!(matches!(sys_sigaction(&mut acts, 19, None), Err(Errno::EINVAL)));
    assert!(matches!(sys_sigaction(&mut acts, 65, None), Err(Errno::EINVAL)));
    assert_eq!(kill_decision(0, true, false), Ok(None));
    assert_eq!(kill_decision(10, true, false), Ok(Some(SigMask { bits: 1 << 9 })));
    assert_eq!(kill_decision(10, false, false), Ok(None));
    assert_eq!(kill_decision(10, false, true), Err(Errno::ESRCH));
    assert_eq!(kill_decision(40, true, true), Err(Errno::EINVAL));
}

#[test]
fn lseek_offsets() {
    let table: Vec<Option<u32>> = vec![Some(5), None];
    assert_eq!(sys_lseek(&table, 0, 100, SEEK_SET, 7, 1000), Ok((5, 100)));
    assert_eq!(sys_lseek(&table, 0, -3, SEEK_CUR, 7, 1000), Ok((5, 4)));
    assert_eq!(sys_lseek(&table, 0, -10, SEEK_END, 7, 1000), Ok((5, 990)));
    assert_eq!(sys_lseek(&table, 0, -8, SEEK_CUR, 7, 1000), Err(Errno::EINVAL));
    assert_eq!(sys_lseek(&table, 0, -1, SEEK_SET, 7, 1000), Err(Errno::EINVAL));
    assert_eq!(sys_lseek(&table, 1, 0, SEEK_SET, 0, 0), Err(Errno::DISCARD));
    assert_eq!(sys_lseek(&table, 2, 0, SEEK_SET, 0, 0), Err(Errno::EBADF));
}

#[test]
fn pipe2_takes_the_two_lowest_free_descriptors() {
    let mut t: Vec<Option<u32>> = vec![Some(1), None, Some(2)];
    assert_eq!(sys_pipe2(&mut t, 8, 10, 11), Ok((1, 3)));
    assert_eq!(t, vec![Some(1), Some(10), Some(2), Some(11)]);
    assert_eq!(sys_pipe2(&mut t, 5, 20, 21), Err(kernel::errno::Errno::EMFILE));
    assert_eq!(t, vec![Some(1), Some(10), Some(2), Some(11), Some(20)]);
    assert_eq!(sys_pipe2(&mut t, 5, 30, 31), Err(kernel::errno::Errno::EMFILE));
    assert_eq!(t.len(), 5);
}

#[test]
fn ioctl_accepts_terminal_requests() {
    let t: Vec<Option<u32>> = vec![Some(1)];
    assert_eq!(sys_ioctl(&t, 0, TIOCGWINSZ), Ok(true));
    assert_eq!(sys_ioctl(&t, 0, TCGETS), Ok(false));
    assert_eq!(sys_ioctl(&t, 0, 0x1234), Err(kernel::errno::Errno::EINVAL));
    assert_eq!(sys_ioctl(&t, 1, TCGETS), Err(kernel::errno::Errno::EBADF));
}

#[test]
fn getcwd_writes_the_directory_and_a_zero() {
    let mut b = UserBuffer::wrap(vec![vec![9u8; 3], vec![9u8; 5]]);
    assert_eq!(kernel::fs_calls::sys_getcwd(0x1000, 8, b"/usr", &mut b), Ok(0x1000));
    assert_eq!(b.buffers, vec![vec![b'/', b'u', b's'], vec![b'r', 0, 9, 9, 9]]);
    assert_eq!(kernel::fs_calls::sys_getcwd(0, 8, b"/usr", &mut b), Err(Errno::EFAULT));
    assert_eq!(kernel::fs_calls::sys_getcwd(0x1000, 0, b"/usr", &mut b), Err(Errno::EINVAL));
    let mut small = UserBuffer::wrap(vec![vec![9u8; 4]]);
    assert_eq!(kernel::fs_calls::sys_getcwd(0x1000, 4, b"/usr", &mut small), Err(Errno::ERANGE));
    assert_eq!(small.buffers, vec![vec![9u8; 4]]);
}

#[test]
fn socketpair_takes_two_descriptors_as_pipe2_does() {
    let mut t: Vec<Option<u32>> = vec![None];
    assert_eq!(kernel::fd_table::sys_socketpair(&mut t, 8, 5, 6), Ok((0, 1)));
    assert_eq!(t, vec![Some(5), Some(6)]);
}

#[test]
fn sigreturn_finds_the_frame_that_delivery_laid_out() {
    let f = signal_frame(0x8000, 0x100, 0x80, 0x120).unwrap();
    assert_eq!(sigreturn_frame(f.sigcontext_ptr, 0x100, 0x80, 0x120), f);
    assert_eq!(f.ucontext_ptr + 0x100, 0x8000);
}
