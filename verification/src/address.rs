//! Physical and virtual addresses and page numbers of the Sv39 paging scheme.
use vstd::prelude::*;

verus! {

/// Size of a page in bytes (4 KiB).
pub const PAGE_SIZE: u64 = 0x1000;

/// Number of bits of the in-page offset.
pub const IN_PAGE_OFFSET: u64 = 0xc;

/// Width of a physical address in bits.
pub const PA_WIDTH_SV39: u64 = 56;

/// Width of a virtual address in bits.
pub const VA_WIDTH_SV39: u64 = 39;

/// Width of a physical page number in bits.
pub const PPN_WIDTH_SV39: u64 = 44;

/// Width of a virtual page number in bits.
pub const VPN_WIDTH_SV39: u64 = 27;

/// Mask of the low 56 bits.
pub const PA_MASK: u64 = 0xff_ffff_ffff_ffff;

/// Mask of the low 39 bits.
pub const VA_MASK: u64 = 0x7f_ffff_ffff;

/// Mask of the low 44 bits.
pub const PPN_MASK: u64 = 0xfff_ffff_ffff;

/// Mask of the low 27 bits.
pub const VPN_MASK: u64 = 0x7ff_ffff;

/// A physical address.
#[derive(Clone, Copy, Debug, PartialEq, Eq, PartialOrd, Ord, Hash, Structural)]
pub struct PhysAddr(pub u64);

/// A virtual address.
#[derive(Clone, Copy, Debug, PartialEq, Eq, PartialOrd, Ord, Hash, Structural)]
pub struct VirtAddr(pub u64);

/// A physical page number.
#[derive(Clone, Copy, Debug, PartialEq, Eq, PartialOrd, Ord, Hash, Structural)]
pub struct PhysPageNum(pub u64);

/// A virtual page number.
#[derive(Clone, Copy, Debug, PartialEq, Eq, PartialOrd, Ord, Hash, Structural)]
pub struct VirtPageNum(pub u64);

/// The canonical Sv39 form of a raw virtual address: the low 39 bits are kept; when any bit
/// at or above bit 39 is set, all the bits above the low 39 are set.
pub open spec fn canonical_va(v: u64) -> u64 {
    if v >> 39u64 == 0 {
        v
    } else {
        v | !VA_MASK
    }
}

/// Keeping the low bits below a mask is taking the remainder of the division by its size.
pub proof fn lemma_page_offset(v: u64)
    ensures
        v & 0xfffu64 == v % 4096,
        v & 0xfffu64 < 4096,
{
    assert(v & 0xfffu64 == v % 4096 && v & 0xfffu64 < 4096) by (bit_vector);
}

impl PhysAddr {
    /// Builds a physical address from a raw value, keeping its low 56 bits.
    pub fn from_u64(value: u64) -> (r: PhysAddr)
        ensures
            r.0 == value & PA_MASK,
            r.0 == value % 0x100_0000_0000_0000,
    {
        proof {
            assert(value & 0xff_ffff_ffff_ffffu64 == value % 0x100_0000_0000_0000) by (bit_vector);
        }
        PhysAddr(value & PA_MASK)
    }

    /// Physical page number that holds this address (rounded down).
    pub fn floor(&self) -> (r: PhysPageNum)
        ensures
            r.0 == self.0 / PAGE_SIZE,
    {
        PhysPageNum(self.0 / PAGE_SIZE)
    }

    /// Physical page number at or above this address (rounded up).
    pub fn ceil(&self) -> (r: PhysPageNum)
        requires
            self.0 + PAGE_SIZE - 1 <= u64::MAX,
        ensures
            r.0 == (self.0 + PAGE_SIZE - 1) / (PAGE_SIZE as int),
    {
        PhysPageNum((self.0 + (PAGE_SIZE - 1)) / PAGE_SIZE)
    }

    /// Offset of this address inside its page (its low 12 bits).
    pub fn page_offset(&self) -> (r: u64)
        ensures
            r == self.0 % PAGE_SIZE,
            r < PAGE_SIZE,
    {
        proof {
            lemma_page_offset(self.0);
        }
        self.0 & (PAGE_SIZE - 1)
    }

    /// Whether this address is the first byte of a page.
    pub fn is_aligned(&self) -> (r: bool)
        ensures
            r == (self.0 % PAGE_SIZE == 0),
    {
        self.page_offset() == 0
    }
}

impl VirtAddr {
    /// Builds a virtual address from a raw value in the canonical Sv39 form: when the value
    /// has no bit set at or above bit 39 it is kept, else all its bits above the low 39 are set.
    pub fn from_u64(value: u64) -> (r: VirtAddr)
        ensures
            r.0 == canonical_va(value),
    {
        if value >> VA_WIDTH_SV39 == 0 {
            proof {
                assert(value >> 39u64 == 0 ==> value & 0x7f_ffff_ffffu64 == value) by (bit_vector);
            }
            VirtAddr(value & VA_MASK)
        } else {
            proof {
                assert((value & 0x7f_ffff_ffffu64) | (u64::MAX & !0x7f_ffff_ffffu64)
                    == value | !0x7f_ffff_ffffu64) by (bit_vector);
            }
            VirtAddr((value & VA_MASK) | (u64::MAX & !VA_MASK))
        }
    }

    /// Virtual page number that holds this address (rounded down).
    pub fn floor(&self) -> (r: VirtPageNum)
        ensures
            r.0 == self.0 / PAGE_SIZE,
    {
        VirtPageNum(self.0 / PAGE_SIZE)
    }

    /// Virtual page number at or above this address (rounded up).
    pub fn ceil(&self) -> (r: VirtPageNum)
        requires
            self.0 + PAGE_SIZE - 1 <= u64::MAX,
        ensures
            r.0 == (self.0 + PAGE_SIZE - 1) / (PAGE_SIZE as int),
    {
        VirtPageNum((self.0 + (PAGE_SIZE - 1)) / PAGE_SIZE)
    }

    /// Offset of this address inside its page (its low 12 bits).
    pub fn page_offset(&self) -> (r: u64)
        ensures
            r == self.0 % PAGE_SIZE,
            r < PAGE_SIZE,
    {
        proof {
            lemma_page_offset(self.0);
        }
        self.0 & (PAGE_SIZE - 1)
    }

    /// Whether this address is the first byte of a page.
    pub fn is_aligned(&self) -> (r: bool)
        ensures
            r == (self.0 % PAGE_SIZE == 0),
    {
        self.page_offset() == 0
    }
}

impl PhysPageNum {
    /// Builds a physical page number from a raw value, keeping its low 44 bits.
    pub fn from_u64(value: u64) -> (r: PhysPageNum)
        ensures
            r.0 == value & PPN_MASK,
            r.0 == value % 0x1000_0000_0000,
    {
        proof {
            assert(value & 0xfff_ffff_ffffu64 == value % 0x1000_0000_0000) by (bit_vector);
        }
        PhysPageNum(value & PPN_MASK)
    }

    /// The physical page number of a page-aligned physical address.
    pub fn from_pa(pa: PhysAddr) -> (r: PhysPageNum)
        requires
            pa.0 % PAGE_SIZE == 0,
        ensures
            r.0 == pa.0 / PAGE_SIZE,
    {
        pa.floor()
    }

    /// Address of the first byte of this page: the page number shifted left by 12 bits
    /// (the bits shifted out of the word are lost).
    pub fn start_addr(&self) -> (r: PhysAddr)
        ensures
            r.0 == self.0 << 12u64,
            self.0 < 0x10_0000_0000_0000 ==> r.0 == self.0 * PAGE_SIZE,
    {
        proof {
            lemma_shl_page(self.0);
        }
        PhysAddr(self.0 << IN_PAGE_OFFSET)
    }
}

impl VirtPageNum {
    /// Builds a virtual page number from a raw value, keeping its low 27 bits.
    pub fn from_u64(value: u64) -> (r: VirtPageNum)
        ensures
            r.0 == value & VPN_MASK,
            r.0 == value % 0x800_0000,
    {
        proof {
            assert(value & 0x7ff_ffffu64 == value % 0x800_0000) by (bit_vector);
        }
        VirtPageNum(value & VPN_MASK)
    }

    /// The virtual page number of a page-aligned virtual address.
    pub fn from_va(va: VirtAddr) -> (r: VirtPageNum)
        requires
            va.0 % PAGE_SIZE == 0,
        ensures
            r.0 == va.0 / PAGE_SIZE,
    {
        va.floor()
    }

    /// Address of the first byte of this page: the page number shifted left by 12 bits
    /// (the bits shifted out of the word are lost).
    pub fn start_addr(&self) -> (r: VirtAddr)
        ensures
            r.0 == self.0 << 12u64,
            self.0 < 0x10_0000_0000_0000 ==> r.0 == self.0 * PAGE_SIZE,
    {
        proof {
            lemma_shl_page(self.0);
        }
        VirtAddr(self.0 << IN_PAGE_OFFSET)
    }

    /// The three 9-bit page-table indexes of this page number, from the root level down.
    pub fn indexes(&self) -> (r: [u64; 3])
        ensures
            r@.len() == 3,
            r@[0] == (self.0 >> 18u64) & 511u64,
            r@[1] == (self.0 >> 9u64) & 511u64,
            r@[2] == self.0 & 511u64,
            r@[0] < 512 && r@[1] < 512 && r@[2] < 512,
    {
        let mut vpn = self.0;
        let mut idx = [0u64; 3];
        idx[2] = vpn & 511;
        vpn = vpn >> 9;
        idx[1] = vpn & 511;
        vpn = vpn >> 9;
        idx[0] = vpn & 511;
        proof {
            let v = self.0;
            assert((v >> 9u64) >> 9u64 == v >> 18u64 && v & 511u64 < 512 && (v >> 9u64) & 511u64 < 512 && (v
                >> 18u64) & 511u64 < 512) by (bit_vector);
        }
        idx
    }
}

/// Shifting left by 12 bits multiplies by the page size when nothing is shifted out.
pub proof fn lemma_shl_page(v: u64)
    ensures
        v < 0x10_0000_0000_0000 ==> v << 12u64 == v * 4096,
{
    assert(v < 0x10_0000_0000_0000 ==> v << 12u64 == v * 4096) by (bit_vector);
}

/// Advancing by one, returning the value from before the step.
pub trait Step: Sized {
    /// The position of a value on the line that `step` walks.
    spec fn position(&self) -> int;

    /// Whether `step` can be taken without overflow.
    spec fn can_step(&self) -> bool;

    /// Returns the current value and then advances by one.
    fn step(&mut self) -> (r: Self)
        requires
            old(self).can_step(),
        ensures
            r.position() == old(self).position(),
            final(self).position() == old(self).position() + 1,
    ;
}

impl Step for VirtPageNum {
    open spec fn position(&self) -> int {
        self.0 as int
    }

    open spec fn can_step(&self) -> bool {
        self.0 < u64::MAX
    }

    fn step(&mut self) -> (r: Self) {
        let current = *self;
        self.0 = self.0 + 1;
        current
    }
}

impl Step for PhysPageNum {
    open spec fn position(&self) -> int {
        self.0 as int
    }

    open spec fn can_step(&self) -> bool {
        self.0 < u64::MAX
    }

    fn step(&mut self) -> (r: Self) {
        let current = *self;
        self.0 = self.0 + 1;
        current
    }
}

/// A half-open range `[start, end)` of virtual page numbers.
#[derive(Clone, Copy, Debug)]
pub struct VPNRange {
    start: VirtPageNum,
    end: VirtPageNum,
}

impl VPNRange {
    /// The first page of the range.
    pub closed spec fn start_spec(&self) -> u64 {
        self.start.0
    }

    /// The page just past the range.
    pub closed spec fn end_spec(&self) -> u64 {
        self.end.0
    }

    /// The range never ends before it starts.
    pub open spec fn wf(&self) -> bool {
        self.start_spec() <= self.end_spec()
    }

    /// Whether a page number lies in the range.
    pub open spec fn contains_spec(&self, vpn: u64) -> bool {
        self.start_spec() <= vpn < self.end_spec()
    }

    /// The range `[start, end)`; it is a fatal error with `start > end`.
    pub fn new(start: VirtPageNum, end: VirtPageNum) -> (r: VPNRange)
        requires
            start.0 <= end.0,
        ensures
            r.wf(),
            r.start_spec() == start.0,
            r.end_spec() == end.0,
    {
        VPNRange { start, end }
    }

    /// The pages that cover the addresses `[start_va, end_va)`: from the page of `start_va`
    /// rounded down to the page of `end_va` rounded up.
    pub fn from_va(start_va: VirtAddr, end_va: VirtAddr) -> (r: VPNRange)
        requires
            end_va.0 + PAGE_SIZE <= u64::MAX,
            start_va.0 as int / (PAGE_SIZE as int) <= (end_va.0 + PAGE_SIZE - 1) / (PAGE_SIZE as int),
        ensures
            r.wf(),
            r.start_spec() == start_va.0 / PAGE_SIZE,
            r.end_spec() == (end_va.0 + PAGE_SIZE - 1) / (PAGE_SIZE as int),
    {
        let start = start_va.floor();
        let end = end_va.ceil();
        VPNRange { start, end }
    }

    /// The first page of the range.
    pub fn get_start(&self) -> (r: VirtPageNum)
        ensures
            r.0 == self.start_spec(),
    {
        self.start
    }

    /// The page just past the range.
    pub fn get_end(&self) -> (r: VirtPageNum)
        ensures
            r.0 == self.end_spec(),
    {
        self.end
    }

    /// Whether a page number lies in the range.
    pub fn contains(&self, vpn: VirtPageNum) -> (r: bool)
        ensures
            r == self.contains_spec(vpn.0),
    {
        self.start.0 <= vpn.0 && vpn.0 < self.end.0
    }

    /// An iterator over the pages of the range, in increasing order.
    pub fn into_iter(self) -> (r: IntoIter)
        requires
            self.wf(),
        ensures
            r.wf(),
            r.next_spec() == self.start_spec(),
            r.end_spec() == self.end_spec(),
    {
        IntoIter { next: self.start, end: self.end }
    }
}

/// The pages that remain to be visited of a [`VPNRange`].
pub struct IntoIter {
    next: VirtPageNum,
    end: VirtPageNum,
}

impl IntoIter {
    /// The next page to be returned.
    pub closed spec fn next_spec(&self) -> u64 {
        self.next.0
    }

    /// The page at which the iteration stops.
    pub closed spec fn end_spec(&self) -> u64 {
        self.end.0
    }

    /// The iteration never runs past its end.
    pub open spec fn wf(&self) -> bool {
        self.next_spec() <= self.end_spec()
    }

    /// Returns the next page and advances, or `None` once the end is reached.
    pub fn next(&mut self) -> (r: Option<VirtPageNum>)
        requires
            old(self).wf(),
        ensures
            final(self).wf(),
            final(self).end_spec() == old(self).end_spec(),
            old(self).next_spec() == old(self).end_spec() ==> r is None && final(self).next_spec()
                == old(self).next_spec(),
            old(self).next_spec() < old(self).end_spec() ==> r == Some(VirtPageNum(old(self).next_spec()))
                && final(self).next_spec() == old(self).next_spec() + 1,
    {
        if self.next.0 == self.end.0 {
            None
        } else {
            Some(self.next.step())
        }
    }
}

} // verus!
