use kernel::address::{PhysPageNum, VirtAddr, VirtPageNum};
use kernel::areas::{ChunkArea, MapArea};
use kernel::flags::{MapPermission, MapType};
use kernel::frame_allocator::StackFrameAllocator;
use kernel::page_table::PageTable;
use kernel::translate::{translated_bytes_buffer, translated_ref, translated_str, PhysSlice};
use kernel::page_table::PTEFlags;
use kernel::user_copy::{copyin, copyout};
use kernel::wait::{wait4_step, wait_status, WaitStep};
use kernel::errno::Errno;

fn allocator() -> StackFrameAllocator {
    let mut a = StackFrameAllocator::new();
    a.init(PhysPageNum(0x1000), PhysPageNum(0x2000));
    a
}

fn rw() -> MapPermission {
    MapPermission { bits: MapPermission::R | MapPermission::W | MapPermission::U }
}

#[test]
fn map_area_maps_and_unmaps_its_range() {
    let mut a = allocator();
    let mut pt = PageTable::new(&mut a);
    let mut area = MapArea::new(VirtAddr(0x10800), VirtAddr(0x12001), MapType::Framed, rw());
    assert_eq!(area.vpn_range.get_start(), VirtPageNum(0x10));
    assert_eq!(area.vpn_range.get_end(), VirtPageNum(0x13));
    area.map(&mut pt, &mut a);
    assert_eq!(area.data_frames.len(), 3);
    for (i, vpn) in (0x10..0x13).enumerate() {
        let e = pt.translate(VirtPageNum(vpn)).unwrap();
        assert!(e.is_valid());
        assert_eq!(e.ppn(), area.data_frames[i].ppn);
        assert_eq!(e.flags().bits, rw().bits | 1);
    }
    area.unmap(&mut pt);
    assert!(!pt.translate(VirtPageNum(0x11)).unwrap().is_valid());
    let copy = MapArea::from_another(&area);
    assert_eq!(copy.vpn_range.get_start(), VirtPageNum(0x10));
    assert!(copy.data_frames.is_empty());
}

#[test]
fn identical_map_area() {
    let mut a = allocator();
    let mut pt = PageTable::new(&mut a);
    let mut area = MapArea::new(VirtAddr(0x80000000), VirtAddr(0x80002000), MapType::Identical, rw());
    area.map(&mut pt, &mut a);
    assert_eq!(pt.translate(VirtPageNum(0x80001)).unwrap().ppn(), PhysPageNum(0x80001));
    assert!(area.data_frames.is_empty());
}

#[test]
fn map_area_copy_data_chunks() {
    let mut a = allocator();
    let mut pt = PageTable::new(&mut a);
    let mut area = MapArea::new(VirtAddr(0x10000), VirtAddr(0x13000), MapType::Framed, rw());
    area.map(&mut pt, &mut a);
    let chunks = area.copy_data(&pt, 0x100, 0x1800, 0x800);
    assert_eq!(chunks.len(), 2);
    assert_eq!(chunks[0].page_offset, 0x800);
    assert_eq!(chunks[0].len, 0x800);
    assert_eq!(chunks[0].file_offset, 0x100);
    assert_eq!(chunks[1].page_offset, 0);
    assert_eq!(chunks[1].len, 0x1000);
    assert_eq!(chunks[1].file_offset, 0x900);
    assert_eq!(chunks[1].ppn, area.data_frames[1].ppn.0);
}

#[test]
fn chunk_area_pages_one_by_one() {
    let mut a = allocator();
    let mut pt = PageTable::new(&mut a);
    let mut area = ChunkArea::new(MapType::Framed, rw(), VirtAddr(0x40000), VirtAddr(0x48000));
    area.push_vpn(VirtPageNum(0x41), &mut pt, &mut a);
    area.push_vpn(VirtPageNum(0x45), &mut pt, &mut a);
    area.push_vpn(VirtPageNum(0x47), &mut pt, &mut a);
    assert_eq!(area.vpn_table.len(), 3);
    assert_eq!(area.data_frames.len(), 3);
    assert_eq!(pt.translate(VirtPageNum(0x45)).unwrap().ppn(), area.data_frames[1].ppn);
    // shrink the range: the page at or above the new end goes
    area.set_mmap_range(VirtAddr(0x40000), VirtAddr(0x46000));
    assert_eq!(area.vpn_table, vec![VirtPageNum(0x41), VirtPageNum(0x45)]);
    assert_eq!(area.end_va, VirtAddr(0x46000));
    area.unmap(&mut pt);
    assert!(!pt.translate(VirtPageNum(0x41)).unwrap().is_valid());
    assert!(pt.translate(VirtPageNum(0x47)).unwrap().is_valid());
    let copy = ChunkArea::from_another(&area);
    assert!(copy.vpn_table.is_empty());
}

#[test]
fn bytes_buffer_pieces_page_by_page() {
    let mut a = allocator();
    let mut pt = PageTable::new(&mut a);
    let mut area = MapArea::new(VirtAddr(0x10000), VirtAddr(0x13000), MapType::Framed, rw());
    area.map(&mut pt, &mut a);
    let p0 = area.data_frames[0].ppn.0;
    let p1 = area.data_frames[1].ppn.0;
    let p2 = area.data_frames[2].ppn.0;
    let v = translated_bytes_buffer(&pt, 0x10ff0, 0x1020).unwrap();
    assert_eq!(
        v,
        vec![
            PhysSlice { ppn: p0, start: 0xff0, end: 0x1000 },
            PhysSlice { ppn: p1, start: 0, end: 0x1000 },
            PhysSlice { ppn: p2, start: 0, end: 0x10 },
        ]
    );
    assert_eq!(translated_bytes_buffer(&pt, 0x11000, 0x1000).unwrap(), vec![PhysSlice { ppn: p1, start: 0, end: 0x1000 }]);
    assert!(translated_bytes_buffer(&pt, 0x12ff0, 0x20).is_none());
    assert!(translated_bytes_buffer(&pt, 0x12ff0, 0).unwrap().is_empty());
    assert_eq!(translated_ref(&pt, 0x11008, 8).0, p1 * 0x1000 + 8);
}

#[test]
fn wait4_decisions() {
    assert_eq!(wait4_step(&vec![], -1), Err(Errno::ECHILD));
    let children = vec![(3, false), (4, true), (5, true)];
    assert_eq!(wait4_step(&children, -1), Ok(WaitStep::Reap(1)));
    assert_eq!(wait4_step(&children, 5), Ok(WaitStep::Reap(2)));
    assert_eq!(wait4_step(&children, 3), Ok(WaitStep::Wait));
    assert_eq!(wait4_step(&children, 9), Err(Errno::ECHILD));
    assert_eq!(wait4_step(&vec![], 3), Err(Errno::ECHILD));
    assert_eq!(wait_status(3), 0x300);
}

#[test]
fn translated_str_reads_across_a_page_boundary() {
    let mut a = allocator();
    let mut pt = PageTable::new(&mut a);
    // user pages 0x10 and 0x11 live in frames 3 and 1
    pt.map(VirtPageNum(0x10), PhysPageNum(3), PTEFlags { bits: PTEFlags::R | PTEFlags::U });
    pt.map(VirtPageNum(0x11), PhysPageNum(1), PTEFlags { bits: PTEFlags::R | PTEFlags::U });
    let mut mem = vec![0xffu8; 4 * 4096];
    mem[3 * 4096 + 4094] = b'h';
    mem[3 * 4096 + 4095] = b'i';
    mem[4096] = b'!';
    mem[4097] = 0;
    assert_eq!(translated_str(&pt, &mem, 0x10ffe), b"hi!".to_vec());
    mem[3 * 4096 + 10] = 0;
    assert_eq!(translated_str(&pt, &mem, 0x1000a), Vec::<u8>::new());
}

#[test]
fn copyout_then_copyin_across_pages() {
    let mut a = allocator();
    let mut pt = PageTable::new(&mut a);
    pt.map(VirtPageNum(0x10), PhysPageNum(3), PTEFlags { bits: PTEFlags::R | PTEFlags::W | PTEFlags::U });
    pt.map(VirtPageNum(0x11), PhysPageNum(1), PTEFlags { bits: PTEFlags::R | PTEFlags::W | PTEFlags::U });
    let mut mem = vec![0u8; 4 * 4096];
    let value = 0x1122_3344_5566_7788u64.to_le_bytes();
    copyout(&pt, &mut mem, 0x10ffd, &value);
    assert_eq!(&mem[3 * 4096 + 4093..3 * 4096 + 4096], &[0x88, 0x77, 0x66]);
    assert_eq!(&mem[4096..4096 + 5], &[0x55, 0x44, 0x33, 0x22, 0x11]);
    assert_eq!(copyin(&pt, &mem, 0x10ffd, 8), value.to_vec());
    assert_eq!(copyin(&pt, &mem, 0x10fff, 2), vec![0x66, 0x55]);
}
