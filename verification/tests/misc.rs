use kernel::fs_calls::{select_step, SelectStep};
use kernel::errno::{syscall_return, Errno, SyscallError};
use kernel::fd_table::{alloc_fd, sys_close, sys_dup, sys_dup3};
use kernel::flags::{MapPermission, MmapFlags, MmapProts};
use kernel::sbi::{HartStatus, SBIError, SBIImplement, SBIRet};
use kernel::shared_memory::{
    attach_shm, create_shm, detach_shm, remove_shm, shm_get_address_and_size, shm_get_nattch,
    SharedMemoryManager, SharedMemoryTracker,
};
use kernel::syscall_id::{stub_result, SyscallId};
use kernel::task::{kernel_stack_position, trap_context_position, KernelStack, TaskContext};
use kernel::timer::{get_time_ms, get_time_ns, get_time_s, get_time_us, get_timeval, next_trigger};
use kernel::address::VirtAddr;

#[test]
fn timer_conversions() {
    assert_eq!(get_time_ms(25_000), 2);
    assert_eq!(get_time_us(25), 2);
    assert_eq!(get_time_ns(25), 2000);
    assert_eq!(get_time_s(25_000_000), 2);
    let tv = get_timeval(12_500_000 + 6_250_000);
    assert_eq!(tv.sec, 1);
    assert_eq!(tv.usec, 500_000);
    assert_eq!(next_trigger(1), 125_001);
}

#[test]
fn syscall_return_negates_error_numbers() {
    assert_eq!(syscall_return(Ok(5)), 5);
    assert_eq!(syscall_return(Err(Errno::EBADF)), -9);
    assert_eq!(Errno::EINVAL.code(), 22);
    assert_eq!(SyscallError::FdInvalid(-1, 3).error_code(), -1);
    assert_eq!(SyscallError::MmapLengthNotBigEnough(-1).error_code(), -1);
}

#[test]
fn sbi_results_are_decoded() {
    assert_eq!(SBIError::from_code(-3), SBIError::InvalidParam);
    assert_eq!(SBIError::NoShmem.code(), -9);
    let r = SBIRet::new();
    assert_eq!(r.error, isize::MIN);
    assert_eq!(r.value, -1);
    let ok = SBIRet { error: 0, value: 42 };
    assert_eq!(ok.into_result(), Ok(42));
    let err = SBIRet { error: -2, value: 0 };
    assert_eq!(err.into_result(), Err(SBIError::NotSupported));
    assert_eq!(err.into_unit_result(), Err(-2));
    assert_eq!(ok.into_unit_result(), Ok(()));
    assert_eq!(SBIRet { error: 0, value: 3 }.into_hart_status(), Ok(HartStatus::StopPending));
    assert_eq!(SBIImplement::from_value(1), SBIImplement::OpenSBI);
}

#[test]
fn probe_reports_unsupported_extensions() {
    // a successful probe, as the kernel reads it, is reported as not supported
    assert_eq!(SBIRet { error: 0, value: 1 }.into_probe_result(), Ok(1));
    assert_eq!(SBIRet { error: 0, value: 0 }.into_probe_result(), Err(SBIError::NotSupported));
    assert_eq!(SBIRet { error: -2, value: 7 }.into_probe_result(), Err(SBIError::NotSupported));
    assert_eq!(SBIRet { error: -1, value: 7 }.into_probe_result(), Err(SBIError::Failed));
}

#[test]
fn fd_table_operations() {
    let mut t: Vec<Option<u64>> = vec![Some(10), None, Some(12)];
    assert_eq!(alloc_fd(&mut t, 8), 1);
    t[1] = Some(11);
    assert_eq!(alloc_fd(&mut t, 8), 3);
    assert_eq!(t.len(), 4);
    assert_eq!(alloc_fd(&mut t, 4), 3);
    assert_eq!(sys_close(&mut t, 0), Ok(0));
    assert_eq!(t[0], None);
    assert_eq!(sys_close(&mut t, 0), Err(Errno::EBADF));
    assert_eq!(sys_close(&mut t, 9), Err(Errno::EBADF));
}

#[test]
fn dup_and_dup3() {
    let mut t: Vec<Option<u64>> = vec![Some(10), Some(11)];
    assert_eq!(sys_dup(&mut t, 8, 0), Ok(2));
    assert_eq!(t[2], Some(10));
    assert_eq!(sys_dup(&mut t, 8, 5), Err(Errno::EBADF));
    assert_eq!(sys_dup3(&mut t, 1, 5), Ok(5));
    assert_eq!(t.len(), 6);
    assert_eq!(t[5], Some(11));
}

#[test]
fn kernel_stacks_go_down_from_the_trampoline() {
    let (bottom, top) = kernel_stack_position(0);
    assert_eq!(top, 0xffff_ffff_ffff_f000);
    assert_eq!(bottom, top - 0x2000);
    let (_, top1) = kernel_stack_position(1);
    assert_eq!(top1, top - 0x3000);
    assert_eq!(KernelStack::new(1).top(), top1);
    assert_eq!(trap_context_position(0x3f_ffff_b000, 2), VirtAddr(0x3f_ffff_9000));
    let cx = TaskContext::readied_for_switching(0x9000, 0x80);
    assert_eq!(cx.ra, 0x80);
    assert_eq!(cx.sp, 0x9000);
    assert_eq!(TaskContext::empty().s, [0; 12]);
}

#[test]
fn map_permission_from_prot() {
    let p = MapPermission::from_vm_prot(MmapProts { bits: MmapProts::PROT_READ | MmapProts::PROT_EXEC });
    assert_eq!(p.bits, MapPermission::R | MapPermission::X);
    assert!(p.readable() && p.executable() && !p.writable() && !p.is_user());
    assert_eq!(MapPermission::from_bits(1), None);
    assert_eq!(MmapFlags::from_bits(0x40), None);
    assert_eq!(MmapProts::from_bits(0x0100_0001).map(|p| p.bits), Some(0x0100_0001));
}

#[test]
fn shared_memory_segments() {
    let mut m = SharedMemoryManager::new();
    assert_eq!(create_shm(&mut m, 7, 100, 0o1666, 3, 1), 7);
    assert_eq!(create_shm(&mut m, 0, 50, 0o600, 3, 2), 8);
    assert_eq!(shm_get_address_and_size(&m, 8).1, 50);
    attach_shm(&mut m, 7, 4, 3);
    let t = SharedMemoryTracker::new(7, &mut m, 5, 4);
    assert_eq!(shm_get_nattch(&m, 7), 2);
    // an attached segment is kept
    remove_shm(&mut m, 7);
    assert_eq!(shm_get_nattch(&m, 7), 2);
    t.release(&mut m, 5, 6);
    detach_shm(&mut m, 7, 4, 7);
    assert_eq!(shm_get_nattch(&m, 7), 0);
    remove_shm(&mut m, 7);
    assert_eq!(create_shm(&mut m, 7, 10, 0, 1, 8), 7);
}

#[test]
fn syscall_numbers() {
    assert_eq!(SyscallId::from_number(214), Some(SyscallId::SYS_BRK));
    assert_eq!(SyscallId::from_number(0), None);
    assert_eq!(SyscallId::SYS_MMAP.number(), 222);
    assert_eq!(SyscallId::SYS_GETPID.name(), "SYS_GETPID");
    assert_eq!(stub_result(SyscallId::SYS_SOCKET), Some(1));
    assert_eq!(stub_result(SyscallId::SYS_READ), None);
    assert_eq!(stub_result(SyscallId::SYS_UMASK), Some(0));
    assert_eq!(stub_result(SyscallId::SYS_MEMBARRIER), Some(0));
}

#[test]
fn ecall_resumes_after_the_instruction() {
    assert_eq!(kernel::trap::ecall_return_pc(0x1000), 0x1004);
}

#[test]
fn syscall_result_goes_to_a0_but_for_sigreturn() {
    assert_eq!(kernel::trap::syscall_a0(7, 42, false), 42);
    assert_eq!(kernel::trap::syscall_a0(7, -2, false), usize::MAX - 1);
    assert_eq!(kernel::trap::syscall_a0(7, -2, true), 7);
}

#[test]
fn select_waits_only_while_time_is_left() {
    assert_eq!(select_step(true, false, true), SelectStep::Wait);
    assert_eq!(select_step(false, true, true), SelectStep::Wait);
    assert_eq!(select_step(true, true, false), SelectStep::Finish { write_back: true });
    assert_eq!(select_step(false, false, true), SelectStep::Finish { write_back: false });
    assert_eq!(select_step(false, false, false), SelectStep::Finish { write_back: false });
}

#[test]
fn select_counts_all_kinds() {
    assert_eq!(kernel::fs_calls::select_count(1, 2, 3), 6);
    assert_eq!(kernel::fs_calls::select_count(0, 0, 0), 0);
}

#[test]
fn a_child_gets_a_copy_of_the_descriptor_table() {
    let parent: Vec<Option<u32>> = vec![Some(7), None, Some(9)];
    let child = kernel::fd_table::copy_fd_table(&parent);
    assert_eq!(child, parent);
}
