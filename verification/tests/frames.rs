use kernel::address::PhysPageNum;
use kernel::frame_allocator::{
    alloc_frame, dealloc_frame, enquire_refcount, frame_add_ref, init, FrameTracker,
    StackFrameAllocator,
};
use kernel::page_table::{PTEFlags, PageTable, PageTableEntry};
use kernel::address::VirtPageNum;

fn allocator(l: u64, r: u64) -> StackFrameAllocator {
    let mut a = StackFrameAllocator::new();
    a.init(PhysPageNum(l), PhysPageNum(r));
    a
}

#[test]
fn allocator_hands_out_lowest_frames_first() {
    let mut a = allocator(10, 13);
    assert_eq!(a.allocate(), Some(PhysPageNum(10)));
    assert_eq!(a.allocate(), Some(PhysPageNum(11)));
    assert_eq!(a.allocate(), Some(PhysPageNum(12)));
    assert_eq!(a.allocate(), None);
}

#[test]
fn freed_frame_is_reused_first() {
    let mut a = allocator(10, 20);
    let f1 = alloc_frame(&mut a).unwrap();
    let f2 = alloc_frame(&mut a).unwrap();
    assert_eq!(f1.ppn, PhysPageNum(10));
    assert_eq!(f2.ppn, PhysPageNum(11));
    assert_eq!(enquire_refcount(PhysPageNum(10), &a), 1);
    f1.release(&mut a);
    let f3 = alloc_frame(&mut a).unwrap();
    assert_eq!(f3.ppn, PhysPageNum(10));
    let (current, recycled, end, base) = a.usage();
    assert_eq!((current, recycled, end, base), (12, 0, 20, 10));
}

#[test]
fn references_are_counted() {
    let mut a = allocator(0, 4);
    let f = alloc_frame(&mut a).unwrap();
    frame_add_ref(f.ppn, &mut a);
    let g = FrameTracker::from_ppn(f.ppn, &mut a);
    assert_eq!(enquire_refcount(f.ppn, &a), 3);
    dealloc_frame(f.ppn, &mut a);
    assert_eq!(enquire_refcount(f.ppn, &a), 2);
    g.release(&mut a);
    f.release(&mut a);
    let (_, recycled, _, _) = a.usage();
    assert_eq!(recycled, 1);
}

#[test]
fn init_rounds_the_range() {
    let mut a = StackFrameAllocator::new();
    init(&mut a, 0x8020_0001, 0x8800_0fff);
    let (current, recycled, end, base) = a.usage();
    assert_eq!(current, 0x80201);
    assert_eq!(base, 0x80201);
    assert_eq!(end, 0x88000);
    assert_eq!(recycled, 0);
}

#[test]
fn page_table_entry_fields() {
    let e = PageTableEntry::new(PhysPageNum(0x12345), PTEFlags { bits: PTEFlags::V | PTEFlags::R });
    assert_eq!(e.bits, (0x12345 << 10) | 3);
    assert_eq!(e.ppn(), PhysPageNum(0x12345));
    assert_eq!(e.flags().bits, 3);
    assert!(e.is_valid());
    assert!(!e.is_cow());
    assert!(!PageTableEntry::empty().is_valid());
    assert_eq!(PTEFlags::from_bits(0x200), None);
    assert!(PTEFlags { bits: 0x107 }.contains(PTEFlags::COW));
}

#[test]
fn page_table_map_translate_unmap() {
    let mut a = allocator(100, 200);
    let mut pt = PageTable::new(&mut a);
    assert_eq!(pt.token(), (8u64 << 60) | 100);
    assert_eq!(pt.translate(VirtPageNum(5)), None);
    pt.map(VirtPageNum(5), PhysPageNum(42), PTEFlags { bits: PTEFlags::R | PTEFlags::W });
    let e = pt.translate(VirtPageNum(5)).unwrap();
    assert_eq!(e.ppn(), PhysPageNum(42));
    assert_eq!(e.flags().bits, 7);
    pt.set_cow(VirtPageNum(5));
    assert!(pt.find_pte(VirtPageNum(5)).unwrap().is_cow());
    pt.reset_cow(VirtPageNum(5));
    assert!(!pt.find_pte(VirtPageNum(5)).unwrap().is_cow());
    pt.set_flags(VirtPageNum(5), PTEFlags { bits: PTEFlags::V | PTEFlags::R });
    assert_eq!(pt.translate(VirtPageNum(5)).unwrap().flags().bits, 3);
    pt.remap_cow(VirtPageNum(5), PhysPageNum(43), PhysPageNum(42));
    let e = pt.translate(VirtPageNum(5)).unwrap();
    assert_eq!(e.ppn(), PhysPageNum(43));
    assert_eq!(e.flags().bits, 7);
    pt.unmap(VirtPageNum(5));
    let e = pt.translate(VirtPageNum(5)).unwrap();
    assert!(!e.is_valid());
    assert_eq!(e.bits, 0);
}
