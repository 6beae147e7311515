//! Sizes and addresses of the kernel's memory layout.
use vstd::prelude::*;

verus! {

/// Size of a user stack (4 pages).
pub const USER_STACK_SIZE: u64 = 0x4000;

/// Size of the kernel stack of a process (2 pages).
pub const KERNEL_STACK_SIZE: u64 = 0x2000;

/// Size of the kernel heap (1 MiB).
pub const KERNEL_HEAP_SIZE: u64 = 0x10_0000;

/// Size of a user heap (48 pages).
pub const USER_HEAP_SIZE: u64 = 0x3_0000;

/// Address of the trampoline: the highest page of the virtual address space.
pub const TRAMPOLINE: u64 = 0xffff_ffff_ffff_f000;

/// Start of the area of `mmap` mappings.
pub const MMAP_BASE: u64 = 0x6000_0000;

/// End of the area of `mmap` mappings (128 MiB above its start).
pub const MMAP_END: u64 = 0x6800_0000;

/// Start of the area where shared memory segments are attached.
pub const SHM_BASE: u64 = 0x7000_0000;

/// Address where the dynamic linker is loaded.
pub const LINK_BASE: u64 = 0x2000_0000;

/// Frequency of the timer of the platform (QEMU), in ticks per second.
pub const CLOCK_FREQ: u64 = 12_500_000;

} // verus!
