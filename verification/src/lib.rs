//! Memory-management, process and signal bookkeeping of a small RISC-V (Sv39) kernel.
pub mod address;
pub mod areas;
pub mod clone;
pub mod config;
pub mod elf;
pub mod errno;
pub mod exec;
pub mod fd_table;
pub mod file_calls;
pub mod flags;
pub mod fork;
pub mod frame_allocator;
pub mod fs_calls;
pub mod id;
pub mod itimer;
pub mod loader;
pub mod memory_set;
pub mod mm_syscalls;
pub mod page_table;
pub mod pid;
pub mod process;
pub mod sbi;
pub mod scheduler;
pub mod shared_memory;
pub mod signal_delivery;
pub mod signals;
pub mod syscall_id;
pub mod task;
pub mod time_calls;
pub mod timer;
pub mod translate;
pub mod trap;
pub mod user_buffer;
pub mod user_copy;
pub mod ustack;
pub mod vm_area;
pub mod vma;
pub mod wait;
