use kernel::address::{PhysPageNum, VirtAddr, VirtPageNum};
use kernel::config::TRAMPOLINE;
use kernel::flags::{MapPermission, MmapFlags, MmapProts};
use kernel::frame_allocator::{enquire_refcount, StackFrameAllocator};
use kernel::loader::UserLayout;
use kernel::memory_set::MemorySet;
use kernel::shared_memory::SharedMemoryManager;
use kernel::vm_area::{VmArea, VmAreaType};
use kernel::flags::MapType;

fn allocator() -> StackFrameAllocator {
    let mut a = StackFrameAllocator::new();
    a.init(PhysPageNum(0x1000), PhysPageNum(0x2000));
    a
}

fn layout() -> UserLayout {
    UserLayout {
        strampoline: 0x8020_0000,
        signal_trampoline: 0x3f_ffff_d000,
        user_sigreturn: 0x8020_1000,
        trap_context_base: 0x3f_ffff_b000,
        user_stack_base: 0x3f_ffff_a000,
    }
}

fn parent(a: &mut StackFrameAllocator) -> MemorySet {
    let mut ms = MemorySet::new_bare(a);
    ms.map_trampoline(0x8020_0000);
    ms.map_signal_trampoline(0x3f_ffff_d000, 0x8020_1000);
    ms.map_trap_context(0x3f_ffff_b000, 0x3f_ffff_d000, a);
    let rwx = MapPermission { bits: MapPermission::R | MapPermission::W | MapPermission::X | MapPermission::U };
    ms.insert_framed_area(VirtAddr(0x10000), VirtAddr(0x12000), rwx, VmAreaType::Elf, a);
    let rw = MapPermission { bits: 22 };
    ms.heap_areas = VmArea::new(VirtAddr(0x40000), VirtAddr(0x50000), MapType::Framed, VmAreaType::UserHeap, rw, None, 0);
    ms.brk_start = 0x40000;
    ms.brk = 0x41000;
    let (code, _, _) = ms.check_lazy(VirtAddr(0x40010), a);
    assert_eq!(code, 0);
    ms
}

#[test]
fn fork_shares_program_pages_copy_on_write() {
    let mut a = allocator();
    let mut p = parent(&mut a);
    let mut shm = SharedMemoryManager::new();
    let elf_ppn = p.translate(VirtPageNum(0x10)).unwrap().ppn();
    assert_eq!(enquire_refcount(elf_ppn, &a), 1);
    let c = MemorySet::from_copy_on_write(&mut p, layout(), &mut a, &mut shm, 2, 0).unwrap();
    // the program pages name the same frame in both, without write access, copy on write
    let pe = p.translate(VirtPageNum(0x10)).unwrap();
    let ce = c.translate(VirtPageNum(0x10)).unwrap();
    assert_eq!(pe.ppn(), elf_ppn);
    assert_eq!(ce.ppn(), elf_ppn);
    assert_eq!(pe.flags().bits & 4, 0);
    assert_eq!(ce.flags().bits & 4, 0);
    assert!(pe.is_cow());
    assert!(ce.is_cow());
    assert!(ce.is_valid());
    // the child holds a reference on the frame
    assert_eq!(enquire_refcount(elf_ppn, &a), 2);
    // the touched heap page is shared too; the untouched one is not mapped in the child
    let heap_ppn = p.translate(VirtPageNum(0x40)).unwrap().ppn();
    assert_eq!(c.translate(VirtPageNum(0x40)).unwrap().ppn(), heap_ppn);
    assert!(c.translate(VirtPageNum(0x41)).is_none());
    assert!(c.heap_areas.frame_map.get(&0x40).is_some());
    assert_eq!(c.brk, 0x41000);
    // the trap context has a frame of its own
    let pt = p.translate(VirtPageNum(0x3ff_fffb)).unwrap().ppn();
    let ct = c.translate(VirtPageNum(0x3ff_fffb)).unwrap().ppn();
    assert_ne!(pt, ct);
    // the trampoline is mapped afresh
    assert_eq!(c.translate(VirtPageNum(TRAMPOLINE / 0x1000)).unwrap().ppn(), PhysPageNum(0x80200));
    assert_eq!(c.vm_areas.len(), p.vm_areas.len());
}

#[test]
fn fork_copies_the_mmap_region() {
    let mut a = allocator();
    let mut p = parent(&mut a);
    let mut shm = SharedMemoryManager::new();
    let prot = MmapProts { bits: MmapProts::PROT_READ | MmapProts::PROT_WRITE };
    let anon = MmapFlags { bits: MmapFlags::MAP_PRIVATE | MmapFlags::MAP_ANONYMOUS };
    let (start, _) = p.mmap(0, 0x2000, prot, anon, None, 0);
    let (code, _, _) = p.check_lazy(VirtAddr(start), &mut a);
    assert_eq!(code, 0);
    let ppn = p.translate(VirtPageNum(start / 0x1000)).unwrap().ppn();
    let c = MemorySet::from_copy_on_write(&mut p, layout(), &mut a, &mut shm, 2, 0).unwrap();
    assert_eq!(c.translate(VirtPageNum(start / 0x1000)).unwrap().ppn(), ppn);
    assert!(p.translate(VirtPageNum(start / 0x1000)).unwrap().is_cow());
    assert_eq!(c.mmap_manager.mmap_map.len(), 2);
    assert_eq!(c.mmap_manager.frame_trackers.len(), 1);
    assert_eq!(c.mmap_manager.mmap_top, p.mmap_manager.mmap_top);
    // the untouched page stays unmapped in both
    assert!(c.translate(VirtPageNum(start / 0x1000 + 1)).is_none());
}

#[test]
fn fork_then_write_fault_gives_the_child_its_own_page() {
    let mut a = allocator();
    let mut p = parent(&mut a);
    let mut shm = SharedMemoryManager::new();
    let elf_ppn = p.translate(VirtPageNum(0x11)).unwrap().ppn();
    let mut c = MemorySet::from_copy_on_write(&mut p, layout(), &mut a, &mut shm, 2, 0).unwrap();
    let (code, _, displaced) = c.check_lazy(VirtAddr(0x11008), &mut a);
    assert_eq!(code, 0);
    let old = displaced.unwrap();
    assert_eq!(old.ppn, elf_ppn);
    old.release(&mut a);
    let ce = c.translate(VirtPageNum(0x11)).unwrap();
    assert_ne!(ce.ppn(), elf_ppn);
    assert!(!ce.is_cow());
    assert_ne!(ce.flags().bits & 4, 0);
    // the parent keeps its frame, read-only until its own fault
    assert_eq!(p.translate(VirtPageNum(0x11)).unwrap().ppn(), elf_ppn);
    assert_eq!(enquire_refcount(elf_ppn, &a), 1);
}

#[test]
fn fork_without_frames_fails() {
    let mut a = StackFrameAllocator::new();
    a.init(PhysPageNum(0x1000), PhysPageNum(0x1006));
    let mut p = MemorySet::new_bare(&mut a);
    let rw = MapPermission { bits: 22 };
    p.insert_framed_area(VirtAddr(0x10000), VirtAddr(0x15000), rw, VmAreaType::Elf, &mut a);
    let mut shm = SharedMemoryManager::new();
    assert!(MemorySet::from_copy_on_write(&mut p, layout(), &mut a, &mut shm, 2, 0).is_none());
}


#[test]
fn fork_refuses_a_layout_whose_signal_trampoline_is_on_a_program_page() {
    let mut a = allocator();
    let mut p = parent(&mut a);
    let mut shm = SharedMemoryManager::new();
    let mut clash = layout();
    clash.signal_trampoline = 0x10000;
    assert!(MemorySet::from_copy_on_write(&mut p, clash, &mut a, &mut shm, 2, 0).is_none());
    let mut misaligned = layout();
    misaligned.user_sigreturn += 8;
    assert!(MemorySet::from_copy_on_write(&mut p, misaligned, &mut a, &mut shm, 2, 0).is_none());
}
