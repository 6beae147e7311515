use kernel::address::{PhysAddr, PhysPageNum, VPNRange, VirtAddr, VirtPageNum};

#[test]
fn virt_addr_floor_and_ceil() {
    let va = VirtAddr(0x1001);
    assert_eq!(va.floor(), VirtPageNum(1));
    assert_eq!(va.ceil(), VirtPageNum(2));
    assert_eq!(va.page_offset(), 1);
    assert!(!va.is_aligned());
    assert!(PhysAddr(0x2000).is_aligned());
}

#[test]
fn aligned_address_floor_equals_ceil() {
    let va = VirtAddr(0x5000);
    assert_eq!(va.floor(), va.ceil());
    assert_eq!(VirtAddr(0).ceil(), VirtPageNum(0));
}

#[test]
fn virt_addr_is_made_canonical() {
    assert_eq!(VirtAddr::from_u64(0x1234).0, 0x1234);
    // a bit at or above bit 39 sets all the high bits
    assert_eq!(VirtAddr::from_u64(0x80_0000_0000).0, 0xffff_ff80_0000_0000);
    assert_eq!(VirtAddr::from_u64(0xffff_ffff_ffff_f000).0, 0xffff_ffff_ffff_f000);
}

#[test]
fn phys_addr_keeps_56_bits() {
    assert_eq!(PhysAddr::from_u64(0xff00_0000_0000_1000).0, 0x0000_0000_0000_1000);
    assert_eq!(PhysPageNum::from_u64(0xffff_f000_0000_0001).0, 1);
}

#[test]
fn page_number_round_trip() {
    let vpn = VirtPageNum(0x1234);
    let va = vpn.start_addr();
    assert_eq!(va.0, 0x1234000);
    assert_eq!(VirtPageNum::from_va(va), vpn);
    let ppn = PhysPageNum(7);
    assert_eq!(PhysPageNum::from_pa(ppn.start_addr()), ppn);
}

#[test]
fn vpn_indexes_split_in_nine_bits() {
    let vpn = VirtPageNum((3 << 18) | (5 << 9) | 7);
    assert_eq!(vpn.indexes(), [3, 5, 7]);
}

#[test]
fn vpn_range_covers_addresses() {
    let r = VPNRange::from_va(VirtAddr(0x1800), VirtAddr(0x3001));
    assert_eq!(r.get_start(), VirtPageNum(1));
    assert_eq!(r.get_end(), VirtPageNum(4));
    assert!(r.contains(VirtPageNum(3)));
    assert!(!r.contains(VirtPageNum(4)));
    let mut it = r.into_iter();
    assert_eq!(it.next(), Some(VirtPageNum(1)));
    assert_eq!(it.next(), Some(VirtPageNum(2)));
    assert_eq!(it.next(), Some(VirtPageNum(3)));
    assert_eq!(it.next(), None);
    assert_eq!(it.next(), None);
}

#[test]
fn vpn_range_new_keeps_bounds() {
    let r = VPNRange::new(VirtPageNum(2), VirtPageNum(2));
    assert_eq!(r.get_start(), VirtPageNum(2));
    assert_eq!(r.get_end(), VirtPageNum(2));
    assert!(!r.contains(VirtPageNum(2)));
}
