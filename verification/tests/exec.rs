use kernel::address::PhysPageNum;
use kernel::config::TRAMPOLINE;
use kernel::exec::{exec_arguments, exec_image};
use kernel::frame_allocator::StackFrameAllocator;
use kernel::loader::{load_elf, UserLayout};

fn layout() -> UserLayout {
    UserLayout {
        strampoline: 0x8020_0000,
        signal_trampoline: TRAMPOLINE - 0x1000,
        user_sigreturn: 0x8020_1000,
        trap_context_base: TRAMPOLINE - 0x2000,
        user_stack_base: TRAMPOLINE - 0x3000,
    }
}

fn allocator() -> StackFrameAllocator {
    let mut a = StackFrameAllocator::new();
    a.init(PhysPageNum(0x8_0400), PhysPageNum(0x8_8000));
    a
}

/// A RISC-V executable of 0x80 bytes with one segment loaded at 0x10000.
fn tiny_elf() -> Vec<u8> {
    let mut d = vec![0x7f, b'E', b'L', b'F', 2, 1, 1, 0, 0, 0, 0, 0, 0, 0, 0, 0];
    d.extend_from_slice(&2u16.to_le_bytes());
    d.extend_from_slice(&243u16.to_le_bytes());
    d.extend_from_slice(&1u32.to_le_bytes());
    d.extend_from_slice(&0x10078u64.to_le_bytes());
    d.extend_from_slice(&64u64.to_le_bytes());
    d.extend_from_slice(&0u64.to_le_bytes());
    d.extend_from_slice(&0u32.to_le_bytes());
    d.extend_from_slice(&64u16.to_le_bytes());
    d.extend_from_slice(&56u16.to_le_bytes());
    d.extend_from_slice(&1u16.to_le_bytes());
    d.extend_from_slice(&64u16.to_le_bytes());
    d.extend_from_slice(&0u16.to_le_bytes());
    d.extend_from_slice(&0u16.to_le_bytes());
    assert_eq!(d.len(), 64);
    d.extend_from_slice(&1u32.to_le_bytes());
    d.extend_from_slice(&5u32.to_le_bytes());
    d.extend_from_slice(&0u64.to_le_bytes());
    d.extend_from_slice(&0x10000u64.to_le_bytes());
    d.extend_from_slice(&0x10000u64.to_le_bytes());
    d.extend_from_slice(&0x80u64.to_le_bytes());
    d.extend_from_slice(&0x80u64.to_le_bytes());
    d.extend_from_slice(&0x1000u64.to_le_bytes());
    d.resize(0x80, 0);
    d
}

#[test]
fn shell_scripts_run_under_busybox() {
    let (p, a, e) = exec_arguments(b"/test.sh".to_vec(), vec![b"-x".to_vec()], vec![b"HOME=/".to_vec()]);
    assert_eq!(p, b"busybox".to_vec());
    assert_eq!(a, vec![b"sh".to_vec(), b"-x".to_vec()]);
    assert_eq!(
        e,
        vec![b"HOME=/".to_vec(), b"PATH=/".to_vec(), b"LD_LIBRARY_PATH=/".to_vec(), b"ENOUGH=5000".to_vec()]
    );
    let (p, a, e) = exec_arguments(b"/bin/ls".to_vec(), vec![b"ls".to_vec()], vec![]);
    assert_eq!(p, b"/bin/ls".to_vec());
    assert_eq!(a, vec![b"ls".to_vec()]);
    assert_eq!(e.len(), 3);
}

#[test]
fn load_elf_reads_a_tiny_program() {
    let mut a = allocator();
    let data = tiny_elf();
    let l = load_elf(1, &data, None, layout(), &mut a).expect("loads");
    assert_eq!(l.elf_entry, 0x10078);
    assert_eq!(l.segments.len(), 1);
    assert_eq!(l.segments[0].data_start, 0);
    assert_eq!(l.segments[0].data_len, 0x80);
    assert_eq!(l.segments[0].page_offset, 0);
    assert!(l.auxs.len() > 0);
    assert!(load_elf(1, &data[..40], None, layout(), &mut a).is_none());
}

#[test]
fn exec_image_puts_the_stack_below_the_stack_top() {
    let mut a = allocator();
    let data = tiny_elf();
    let args = vec![b"prog".to_vec()];
    let envs = vec![b"A=1".to_vec()];
    let (l, s) = exec_image(1, &data, None, layout(), &mut a, &args, &envs).expect("runs");
    assert_eq!(l.elf_entry, 0x10078);
    assert!(s.sp < l.user_stack_top);
    assert_eq!(s.arg_ptrs, vec![l.user_stack_top - 4 - 5]);
    assert_eq!(s.env_ptrs, vec![l.user_stack_top - 4]);
    assert_eq!(s.argv_base, s.sp + 8);
    let mut b = allocator();
    assert!(exec_image(1, b"not a program", None, layout(), &mut b, &args, &envs).is_none());
}

#[test]
fn load_elf_needs_a_frame_for_the_root_the_trap_context_and_each_page() {
    let data = tiny_elf();
    let mut short = StackFrameAllocator::new();
    short.init(PhysPageNum(0x8_0400), PhysPageNum(0x8_0402));
    assert!(load_elf(1, &data, None, layout(), &mut short).is_none());
    let mut enough = StackFrameAllocator::new();
    enough.init(PhysPageNum(0x8_0400), PhysPageNum(0x8_0403));
    assert!(load_elf(1, &data, None, layout(), &mut enough).is_some());
}

#[test]
fn load_elf_refuses_a_segment_over_the_trap_context() {
    let mut a = allocator();
    let mut data = tiny_elf();
    let clash = (TRAMPOLINE - 0x2000).to_le_bytes();
    data[64 + 16..64 + 24].copy_from_slice(&clash);
    assert!(load_elf(1, &data, None, layout(), &mut a).is_none());
    let mut misaligned = layout();
    misaligned.strampoline += 8;
    assert!(load_elf(1, &tiny_elf(), None, misaligned, &mut a).is_none());
}
