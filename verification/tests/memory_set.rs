use kernel::address::{PhysPageNum, VirtAddr, VirtPageNum};
use kernel::config::{MMAP_BASE, SHM_BASE, TRAMPOLINE, USER_HEAP_SIZE};
use kernel::flags::{MapPermission, MapType, MmapFlags, MmapProts};
use kernel::frame_allocator::{enquire_refcount, StackFrameAllocator};
use kernel::memory_set::MemorySet;
use kernel::shared_memory::SharedMemoryManager;
use kernel::vm_area::{VmArea, VmAreaType};
use kernel::vma::PageFill;

fn allocator() -> StackFrameAllocator {
    let mut a = StackFrameAllocator::new();
    a.init(PhysPageNum(0x1000), PhysPageNum(0x2000));
    a
}

#[test]
fn new_bare_is_empty() {
    let mut a = allocator();
    let ms = MemorySet::new_bare(&mut a);
    assert_eq!(ms.token(), (8u64 << 60) | 0x1000);
    assert!(ms.vm_areas.is_empty());
    assert_eq!(ms.shm_top, SHM_BASE);
    assert_eq!(ms.mmap_manager.mmap_start, VirtAddr(MMAP_BASE));
    assert_eq!(ms.mmap_manager.mmap_top, VirtAddr(MMAP_BASE));
    assert_eq!(ms.heap_areas.start_vpn(), VirtPageNum(0));
    assert_eq!(ms.heap_areas.end_vpn(), VirtPageNum(0));
    assert_eq!(ms.heap_areas.area_type, VmAreaType::UserHeap);
    assert_eq!(ms.user_stack_areas.area_type, VmAreaType::UserStack);
    assert_eq!(ms.heap_areas.permission.bits, 22);
    assert_eq!(ms.translate(VirtPageNum(0)), None);
}

#[test]
fn framed_area_maps_every_page_to_fresh_frames() {
    let mut a = allocator();
    let mut ms = MemorySet::new_bare(&mut a);
    let perm = MapPermission { bits: MapPermission::R | MapPermission::W | MapPermission::U };
    ms.insert_framed_area(VirtAddr(0x10000), VirtAddr(0x12800), perm, VmAreaType::Elf, &mut a);
    assert_eq!(ms.vm_areas.len(), 1);
    for vpn in 0x10..0x13 {
        let e = ms.translate(VirtPageNum(vpn)).unwrap();
        assert!(e.is_valid());
        assert_eq!(e.flags().bits, 23);
        assert_eq!(enquire_refcount(e.ppn(), &a), 1);
    }
    assert_eq!(ms.translate(VirtPageNum(0x13)), None);
    assert!(ms.is_lazy_mapped(VirtPageNum(0x11)));
    assert!(!ms.is_lazy_mapped(VirtPageNum(0x13)));
    // frames 0x1001, 0x1002, 0x1003 (0x1000 is the root table)
    assert_eq!(ms.translate(VirtPageNum(0x10)).unwrap().ppn(), PhysPageNum(0x1001));
    assert_eq!(ms.translate(VirtPageNum(0x12)).unwrap().ppn(), PhysPageNum(0x1003));
}

#[test]
fn identical_and_linear_areas_map_by_rule() {
    let mut a = allocator();
    let mut ms = MemorySet::new_bare(&mut a);
    let perm = MapPermission { bits: MapPermission::R };
    let area = VmArea::new(VirtAddr(0x5000), VirtAddr(0x7000), MapType::Identical, VmAreaType::KernelSpace, perm, None, 0);
    ms.insert(area, &mut a);
    assert_eq!(ms.translate(VirtPageNum(6)).unwrap().ppn(), PhysPageNum(6));
    let area = VmArea::new(VirtAddr(0x9000), VirtAddr(0xa000), MapType::Linear(-3), VmAreaType::KernelSpace, perm, None, 0);
    ms.insert(area, &mut a);
    assert_eq!(ms.translate(VirtPageNum(9)).unwrap().ppn(), PhysPageNum(6));
    let (_, recycled, _, _) = a.usage();
    assert_eq!(recycled, 0);
}

#[test]
fn remove_area_unmaps_its_pages() {
    let mut a = allocator();
    let mut ms = MemorySet::new_bare(&mut a);
    let perm = MapPermission { bits: MapPermission::R | MapPermission::U };
    ms.insert_framed_area(VirtAddr(0x1000), VirtAddr(0x3000), perm, VmAreaType::Elf, &mut a);
    ms.insert_framed_area(VirtAddr(0x8000), VirtAddr(0x9000), perm, VmAreaType::Elf, &mut a);
    assert!(ms.remove_area_with_start_vpn(VirtPageNum(5)).is_none());
    let removed = ms.remove_area_with_start_vpn(VirtPageNum(1)).unwrap();
    assert_eq!(removed.start_vpn(), VirtPageNum(1));
    assert_eq!(ms.vm_areas.len(), 1);
    assert!(!ms.translate(VirtPageNum(1)).unwrap().is_valid());
    assert!(!ms.translate(VirtPageNum(2)).unwrap().is_valid());
    assert!(ms.translate(VirtPageNum(8)).unwrap().is_valid());
    for vpn in [1u64, 2] {
        removed.frame_map.get(&vpn).unwrap();
    }
    let areas = ms.recycle_data_pages();
    assert_eq!(areas.len(), 1);
    assert!(ms.vm_areas.is_empty());
}

#[test]
fn trampolines_and_trap_contexts() {
    let mut a = allocator();
    let mut ms = MemorySet::new_bare(&mut a);
    ms.map_trampoline(0x8020_0000);
    let e = ms.translate(VirtPageNum(TRAMPOLINE / 0x1000)).unwrap();
    assert_eq!(e.ppn(), PhysPageNum(0x80200));
    assert_eq!(e.flags().bits, 11);
    ms.map_signal_trampoline(0x3f_ffff_d000, 0x8020_1000);
    let e = ms.translate(VirtPageNum(0x3f_ffff_d000 / 0x1000)).unwrap();
    assert_eq!(e.ppn(), PhysPageNum(0x80201));
    assert_eq!(e.flags().bits, 27);
    ms.map_trap_context(0x3f_ffff_b000, 0x3f_ffff_d000, &mut a);
    assert_eq!(ms.vm_areas.len(), 1);
    assert_eq!(ms.vm_areas[0].area_type, VmAreaType::TrapContext);
    assert_eq!(ms.vm_areas[0].start_vpn(), VirtPageNum(0x3ff_fffb));
    assert_eq!(ms.vm_areas[0].end_vpn(), VirtPageNum(0x3ff_fffd));
    ms.map_thread_trap_context(3, 0x3f_ffff_b000, 16, &mut a);
    assert_eq!(ms.vm_areas[1].start_vpn(), VirtPageNum(0x3ff_fff8));
    assert_eq!(ms.vm_areas[1].end_vpn(), VirtPageNum(0x3ff_fff9));
    assert_eq!(ms.translate(VirtPageNum(0x3ff_fff8)).unwrap().flags().bits, 7);
}

#[test]
fn check_va_range_looks_at_every_region() {
    let mut a = allocator();
    let mut ms = MemorySet::new_bare(&mut a);
    let perm = MapPermission { bits: MapPermission::R | MapPermission::U };
    ms.insert_framed_area(VirtAddr(0x10000), VirtAddr(0x14000), perm, VmAreaType::Elf, &mut a);
    assert!(ms.check_va_range(VirtAddr(0x10800), 0x1000));
    assert!(!ms.check_va_range(VirtAddr(0x13800), 0x1000));
    ms.mmap_manager.mmap_top = VirtAddr(MMAP_BASE + 0x4000);
    assert!(ms.check_va_range(VirtAddr(MMAP_BASE), 0x3fff));
    assert!(!ms.check_va_range(VirtAddr(MMAP_BASE), 0x4000));
}

#[test]
fn heap_grows_and_shrinks() {
    let mut a = allocator();
    let mut ms = MemorySet::new_bare(&mut a);
    ms.brk_start = 0x20000;
    ms.brk = 0x20000;
    assert_eq!(ms.grow_proc(0x1000), 0x21000);
    assert_eq!(ms.grow_proc(-0x800), 0x20800);
    assert_eq!(ms.grow_proc(0), 0x20800);
    assert_eq!(ms.grow_proc((USER_HEAP_SIZE - 0x800) as isize), 0x20000 + USER_HEAP_SIZE);
}

#[test]
fn lazy_heap_and_stack_pages() {
    let mut a = allocator();
    let mut ms = MemorySet::new_bare(&mut a);
    let rw = MapPermission { bits: 22 };
    ms.heap_areas = VmArea::new(VirtAddr(0x40000), VirtAddr(0x50000), MapType::Framed, VmAreaType::UserHeap, rw, None, 0);
    ms.brk_start = 0x40000;
    ms.brk = 0x40000;
    ms.user_stack_areas = VmArea::new(VirtAddr(0x80000), VirtAddr(0x84000), MapType::Framed, VmAreaType::UserStack, rw, None, 0);
    ms.user_stack_start = 0x80000;
    ms.user_stack_end = 0x84000;
    let (code, fill, displaced) = ms.check_lazy(VirtAddr(0x83ff8), &mut a);
    assert_eq!(code, 0);
    assert!(fill.is_none());
    assert!(displaced.is_none());
    assert!(ms.translate(VirtPageNum(0x83)).unwrap().is_valid());
    assert!(ms.user_stack_areas.frame_map.get(&0x83).is_some());
    let (code, _, _) = ms.check_lazy(VirtAddr(0x41234), &mut a);
    assert_eq!(code, 0);
    assert!(ms.heap_areas.frame_map.get(&0x41).is_some());
    // a mapped page faults again: -4
    let (code, _, _) = ms.check_lazy(VirtAddr(0x41000), &mut a);
    assert_eq!(code, -4);
    // outside every region: -2
    let (code, _, _) = ms.check_lazy(VirtAddr(0x9000_0000), &mut a);
    assert_eq!(code, -1);
    let (code, displaced) = ms.lazy_alloc_heap(VirtPageNum(0x42), &mut a);
    assert_eq!(code, 0);
    assert!(displaced.is_none());
    let (code, _) = ms.lazy_alloc_stack(VirtPageNum(0x80), &mut a);
    assert_eq!(code, 0);
}

#[test]
fn mmap_pages_are_filled_on_first_touch() {
    let mut a = allocator();
    let mut ms = MemorySet::new_bare(&mut a);
    let prot = MmapProts { bits: MmapProts::PROT_READ | MmapProts::PROT_WRITE };
    let anon = MmapFlags { bits: MmapFlags::MAP_PRIVATE | MmapFlags::MAP_ANONYMOUS };
    let (start, removed) = ms.mmap(0, 0x2000, prot, anon, None, 0);
    assert_eq!(start, MMAP_BASE);
    assert!(removed.is_empty());
    assert_eq!(ms.mmap_manager.mmap_top, VirtAddr(MMAP_BASE + 0x2000));
    let (code, fill, _) = ms.check_lazy(VirtAddr(MMAP_BASE + 0x1010), &mut a);
    assert_eq!(code, 0);
    assert_eq!(fill, Some(PageFill::Zero));
    let e = ms.translate(VirtPageNum(MMAP_BASE / 0x1000 + 1)).unwrap();
    assert_eq!(e.flags().bits, 0b10111);
    assert!(ms.mmap_manager.mmap_map.get(&(MMAP_BASE / 0x1000 + 1)).unwrap().valid);
    // a file mapping at the new top
    let shared = MmapFlags { bits: MmapFlags::MAP_SHARED };
    let (start2, _) = ms.mmap(0, 0x1000, prot, shared, Some(9), 0x3000);
    assert_eq!(start2, MMAP_BASE + 0x2000);
    let (fill, _) = ms.lazy_mmap(VirtPageNum(start2 / 0x1000), &mut a);
    assert_eq!(fill, PageFill::File { file: 9, offset: 0x3000 });
    let (code, freed) = ms.munmap(MMAP_BASE, 0x3000);
    assert_eq!(code, 0);
    assert_eq!(freed.len(), 2);
    assert!(ms.mmap_manager.mmap_map.is_empty());
}

#[test]
fn copy_on_write_fault_moves_a_shared_page() {
    let mut a = allocator();
    let mut ms = MemorySet::new_bare(&mut a);
    let perm = MapPermission { bits: MapPermission::R | MapPermission::W | MapPermission::U };
    ms.insert_framed_area(VirtAddr(0x10000), VirtAddr(0x11000), perm, VmAreaType::Elf, &mut a);
    let e = ms.translate(VirtPageNum(0x10)).unwrap();
    let shared = e.ppn();
    // share the frame: one more reference, read only and copy on write
    kernel::frame_allocator::frame_add_ref(shared, &mut a);
    ms.page_table.set_flags(VirtPageNum(0x10), kernel::page_table::PTEFlags { bits: 0b10011 });
    ms.page_table.set_cow(VirtPageNum(0x10));
    let (code, _, displaced) = ms.check_lazy(VirtAddr(0x10008), &mut a);
    assert_eq!(code, 0);
    let moved = ms.translate(VirtPageNum(0x10)).unwrap();
    assert_ne!(moved.ppn(), shared);
    assert!(!moved.is_cow());
    assert_eq!(moved.flags().bits, 0b10111);
    let old = displaced.unwrap();
    assert_eq!(old.ppn, shared);
    old.release(&mut a);
    assert_eq!(enquire_refcount(shared, &a), 1);
    // the only user of its frame is made writable again in place
    ms.page_table.set_flags(VirtPageNum(0x10), kernel::page_table::PTEFlags { bits: 0b10011 });
    ms.page_table.set_cow(VirtPageNum(0x10));
    let before = ms.translate(VirtPageNum(0x10)).unwrap().ppn();
    let (code, displaced) = ms.cow_alloc(VirtPageNum(0x10), before, &mut a);
    assert_eq!(code, 0);
    assert!(displaced.is_none());
    let e = ms.translate(VirtPageNum(0x10)).unwrap();
    assert_eq!(e.ppn(), before);
    assert_eq!(e.flags().bits, 0b10111);
}

#[test]
fn shared_memory_attach_and_detach() {
    let mut a = allocator();
    let mut ms = MemorySet::new_bare(&mut a);
    let mut shm = SharedMemoryManager::new();
    let key = shm.create(0, 0x2000, 0o600, 1, 5);
    assert_eq!(key, 1);
    let (attached, displaced) = ms.attach_shm(key, VirtAddr(SHM_BASE), &mut shm, 1, 6);
    if attached {
        assert!(displaced.is_none());
        assert_eq!(shm.get_nattch(key), 1);
        assert_eq!(ms.shm_top, SHM_BASE + 0x2000);
        assert_eq!(ms.shm_areas.len(), 1);
        assert!(ms.translate(VirtPageNum(SHM_BASE / 0x1000 + 1)).unwrap().is_valid());
        let left = ms.detach_shm(VirtAddr(SHM_BASE), &mut shm, 1, 7);
        assert_eq!(left, 0);
        assert!(ms.shm_trackers.is_empty());
        assert!(ms.shm_areas.is_empty());
        assert!(!ms.translate(VirtPageNum(SHM_BASE / 0x1000)).unwrap().is_valid());
    } else {
        assert_eq!(shm.get_nattch(key), 0);
        assert!(ms.shm_areas.is_empty());
    }
}

#[test]
fn mmap_then_munmap_leaves_nothing_reserved() {
    let mut a = allocator();
    let mut ms = MemorySet::new_bare(&mut a);
    let prot = MmapProts { bits: MmapProts::PROT_READ };
    let anon = MmapFlags { bits: MmapFlags::MAP_PRIVATE | MmapFlags::MAP_ANONYMOUS };
    let (first, _) = ms.mmap(0, 0x1000, prot, anon, None, 0);
    let (second, _) = ms.mmap(0, 0x3000, prot, anon, None, 0);
    let (code, _, _) = ms.check_lazy(VirtAddr(second + 0x1000), &mut a);
    assert_eq!(code, 0);
    let before = ms.mmap_manager.mmap_map.len();
    let (r, removed) = ms.munmap(second, 0x3000);
    assert_eq!(r, 0);
    assert_eq!(removed.len(), 1);
    for p in 0..3 {
        assert!(ms.mmap_manager.mmap_map.get(&(second / 0x1000 + p)).is_none());
        assert!(ms.mmap_manager.frame_trackers.get(&(second / 0x1000 + p)).is_none());
    }
    // the first mapping is kept
    assert!(ms.mmap_manager.mmap_map.get(&(first / 0x1000)).is_some());
    assert_eq!(ms.mmap_manager.mmap_map.len(), before - 3);
}

#[test]
fn mmap_top_moves_to_the_canonical_end() {
    let mut m = kernel::vma::MmapManager::new(VirtAddr(0x7f_ffff_e000), VirtAddr(0x7f_ffff_e000));
    let prot = MmapProts { bits: MmapProts::PROT_READ };
    let anon = MmapFlags { bits: MmapFlags::MAP_PRIVATE | MmapFlags::MAP_ANONYMOUS };
    assert_eq!(m.push(VirtAddr(0x7f_ffff_e000), 0x2000, prot, anon, 0, None), 0x7f_ffff_e000);
    assert_eq!(m.mmap_top, VirtAddr(0xffff_ff80_0000_0000));
}

#[test]
fn write_back_plan_lists_the_valid_pages_of_a_writable_file_area() {
    let mut a = allocator();
    let mut ms = MemorySet::new_bare(&mut a);
    let rw = MapPermission { bits: MapPermission::R | MapPermission::W | MapPermission::U };
    let area = VmArea::new(VirtAddr(0x20000), VirtAddr(0x22000), MapType::Framed, VmAreaType::Elf, rw, Some(3), 0x100);
    ms.insert(area, &mut a);
    let p0 = ms.translate(VirtPageNum(0x20)).unwrap().ppn().0;
    let p1 = ms.translate(VirtPageNum(0x21)).unwrap().ppn().0;
    let area = &ms.vm_areas[0];
    assert_eq!(area.write_back_plan(&ms.page_table, true), vec![(p0, 0x100), (p1, 0x1100)]);
    assert_eq!(area.write_back_plan(&ms.page_table, false), vec![]);
    let ro = VmArea::new(VirtAddr(0x20000), VirtAddr(0x22000), MapType::Framed, VmAreaType::Elf, MapPermission { bits: MapPermission::R }, Some(3), 0);
    assert_eq!(ro.write_back_plan(&ms.page_table, true), vec![]);
}
