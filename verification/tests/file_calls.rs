use kernel::address::{PhysPageNum, VirtAddr};
use kernel::errno::Errno;
use kernel::file_calls::{
    readv_len, sys_pread64, sys_pwrite64, sys_read, sys_readv, sys_write, sys_writev, OpenFile, ReadPlan,
};
use kernel::flags::MapPermission;
use kernel::frame_allocator::StackFrameAllocator;
use kernel::memory_set::MemorySet;
use kernel::vm_area::VmAreaType;

fn file(id: u64, readable: bool, writable: bool, is_zero: bool) -> Option<OpenFile> {
    Some(OpenFile { id, readable, writable, is_zero })
}

fn table() -> Vec<Option<OpenFile>> {
    vec![file(10, true, false, false), None, file(12, false, true, false), file(13, true, true, true)]
}

#[test]
fn read_checks_and_clamps_to_the_end_of_file() {
    let t = table();
    assert_eq!(sys_read(&t, 0, 100, 30, 10), Ok(ReadPlan::Read { file: 10, len: 20 }));
    assert_eq!(sys_read(&t, 0, 5, 30, 10), Ok(ReadPlan::Read { file: 10, len: 5 }));
    assert_eq!(sys_read(&t, 0, 5, 30, 30), Ok(ReadPlan::Read { file: 10, len: 0 }));
    assert_eq!(sys_read(&t, 1, 5, 0, 0), Err(Errno::EBADF));
    assert_eq!(sys_read(&t, 9, 5, 0, 0), Err(Errno::EBADF));
    assert_eq!(sys_read(&t, 2, 5, 0, 0), Err(Errno::EINVAL));
    assert_eq!(sys_read(&t, 3, 5, 0, 0), Ok(ReadPlan::Zero(13)));
}

#[test]
fn pread_counts_from_the_given_offset() {
    let t = table();
    assert_eq!(sys_pread64(&t, 0, 100, 25, 30), Ok(ReadPlan::Read { file: 10, len: 5 }));
    assert_eq!(sys_pread64(&t, 2, 100, 0, 30), Err(Errno::EBADF));
    assert_eq!(sys_pread64(&t, 3, 100, 0, 0), Ok(ReadPlan::Zero(13)));
}

#[test]
fn write_checks_in_order() {
    let mut a = StackFrameAllocator::new();
    a.init(PhysPageNum(0x1000), PhysPageNum(0x2000));
    let mut ms = MemorySet::new_bare(&mut a);
    let perm = MapPermission { bits: MapPermission::R | MapPermission::W | MapPermission::U };
    ms.insert_framed_area(VirtAddr(0x10000), VirtAddr(0x14000), perm, VmAreaType::Elf, &mut a);
    let t = table();
    assert_eq!(sys_write(&t, &ms, 2, 0x10000, 16), Ok(12));
    assert_eq!(sys_write(&t, &ms, 9, 0x90000, 16), Err(Errno::EBADF));
    assert_eq!(sys_write(&t, &ms, 2, 0x90000, 16), Err(Errno::EFAULT));
    assert_eq!(sys_write(&t, &ms, 1, 0x90000, 16), Err(Errno::EFAULT));
    assert_eq!(sys_write(&t, &ms, 1, 0x10000, 16), Err(Errno::EBADF));
    assert_eq!(sys_write(&t, &ms, 0, 0x10000, 16), Err(Errno::EINVAL));
    assert_eq!(sys_pwrite64(&t, &ms, 3, 0x11000, 8, 64), Ok((13, 64)));
}

#[test]
fn vectored_calls_check_and_clamp() {
    let t = table();
    assert_eq!(sys_readv(&t, 0), Ok(10));
    assert_eq!(sys_readv(&t, 2), Err(Errno::EINVAL));
    assert_eq!(sys_readv(&t, 1), Err(Errno::EBADF));
    assert_eq!(sys_writev(&t, 2), Ok(12));
    assert_eq!(sys_writev(&t, 0), Err(Errno::EINVAL));
    assert_eq!(sys_writev(&t, 7), Err(Errno::EBADF));
    assert_eq!(readv_len(10, 100, 50, 45), 5);
    assert_eq!(readv_len(3, 100, 50, 45), 3);
}

#[test]
fn getrandom_and_recvfrom_answers() {
    assert_eq!(kernel::file_calls::sys_getrandom(16), 16);
    let mut b = kernel::user_buffer::UserBuffer::wrap(vec![vec![0u8; 1]]);
    assert_eq!(kernel::file_calls::sys_recvfrom(&mut b), 1);
    assert_eq!(b.buffers, vec![vec![b'x']]);
}
