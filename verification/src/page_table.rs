//! Sv39 page table entries, and a page table held as the entries of its leaf slots.
//!
//! The tree of page-table pages lives in physical memory, which the verified code does not
//! address; the table is held here by its contents: for every page number that has a leaf
//! slot, the entry in that slot. A slot comes into being when its page is first mapped and
//! stays (emptied) after the page is unmapped.
use vstd::prelude::*;
use std::collections::BTreeMap;
use crate::address::{PhysPageNum, VirtPageNum, PPN_MASK};
use crate::frame_allocator::{alloc_frame, FrameAllocatorModel, FrameTracker, StackFrameAllocator};

verus! {

/// Flags of a page table entry: the eight hardware bits and the copy-on-write bit (the
/// first bit reserved for software).
#[derive(Copy, Clone, PartialEq, Eq, Debug, Structural)]
pub struct PTEFlags {
    pub bits: u16,
}

impl PTEFlags {
    /// Valid.
    pub const V: u16 = 1;
    /// Readable.
    pub const R: u16 = 2;
    /// Writable.
    pub const W: u16 = 4;
    /// Executable.
    pub const X: u16 = 8;
    /// Accessible from user mode.
    pub const U: u16 = 16;
    /// Global.
    pub const G: u16 = 32;
    /// Accessed.
    pub const A: u16 = 64;
    /// Dirty.
    pub const D: u16 = 128;
    /// Shared copy on write.
    pub const COW: u16 = 256;
    /// Every bit that names a flag.
    pub const ALL: u16 = 0x1ff;

    /// The flags whose bits are `bits`, or `None` when a bit names no flag.
    pub fn from_bits(bits: u16) -> (r: Option<PTEFlags>)
        ensures
            r == (if bits & !0x1ffu16 == 0 {
                Some(PTEFlags { bits })
            } else {
                None
            }),
    {
        if bits & !PTEFlags::ALL == 0 {
            Some(PTEFlags { bits })
        } else {
            None
        }
    }

    /// Whether every bit of `bits` is set.
    pub fn contains(&self, bits: u16) -> (r: bool)
        ensures
            r == (self.bits & bits == bits),
    {
        self.bits & bits == bits
    }
}

/// A page table entry: the frame number in bits 10 to 53 and the flags in the low bits.
#[derive(Copy, Clone, PartialEq, Eq, Debug, Structural)]
pub struct PageTableEntry {
    pub bits: u64,
}

/// The frame number of an entry.
pub open spec fn pte_ppn(bits: u64) -> u64 {
    (bits >> 10u64) & PPN_MASK
}

/// The flag bits of an entry.
pub open spec fn pte_flags(bits: u64) -> u16 {
    (bits & 0x3ffu64) as u16
}

/// Whether an entry is valid.
pub open spec fn pte_valid(bits: u64) -> bool {
    bits & 1 == 1
}

/// Whether an entry is shared copy on write.
pub open spec fn pte_cow(bits: u64) -> bool {
    bits & 0x100 == 0x100
}

/// The entry that maps frame `ppn` with flags `flags`.
pub open spec fn pte_bits(ppn: u64, flags: u16) -> u64 {
    ((ppn << 10u64) | (flags as u64)) as u64
}

/// An entry built from a frame number and flags gives them back.
pub proof fn lemma_pte_fields(ppn: u64, flags: u16)
    requires
        ppn <= PPN_MASK,
        flags <= 0x3ff,
    ensures
        pte_ppn(pte_bits(ppn, flags)) == ppn,
        pte_flags(pte_bits(ppn, flags)) == flags,
        pte_valid(pte_bits(ppn, flags)) == (flags & 1 == 1),
        pte_cow(pte_bits(ppn, flags)) == (flags & 0x100 == 0x100),
{
    let f = flags as u64;
    assert(f <= 0x3ff);
    assert((((ppn << 10u64) | f) >> 10u64) & 0xfff_ffff_ffffu64 == ppn && ((ppn << 10u64) | f) & 0x3ffu64 == f
        && ((((ppn << 10u64) | f) & 1u64 == 1u64) == (flags & 1 == 1)) && ((((ppn << 10u64) | f) & 0x100u64
        == 0x100u64) == (flags & 0x100 == 0x100))) by (bit_vector)
        requires
            f == flags as u64,
            ppn <= 0xfff_ffff_ffffu64,
            f <= 0x3ffu64,
    ;
}

/// Whether an entry is valid depends on its flags alone.
pub proof fn lemma_pte_valid_bit(ppn: u64, flags: u16)
    ensures
        pte_valid(pte_bits(ppn, flags)) == (flags & 1 == 1),
{
    let f = flags as u64;
    assert(((((ppn << 10u64) | f) & 1u64 == 1u64) == (flags & 1 == 1))) by (bit_vector)
        requires
            f == flags as u64,
    ;
}

impl PageTableEntry {
    /// The entry that maps frame `ppn` with `flags`.
    pub fn new(ppn: PhysPageNum, flags: PTEFlags) -> (r: PageTableEntry)
        ensures
            r.bits == pte_bits(ppn.0, flags.bits),
    {
        PageTableEntry { bits: (ppn.0 << 10) | (flags.bits as u64) }
    }

    /// The empty entry.
    pub fn empty() -> (r: PageTableEntry)
        ensures
            r.bits == 0,
    {
        PageTableEntry { bits: 0 }
    }

    /// The frame number of the entry.
    pub fn ppn(&self) -> (r: PhysPageNum)
        ensures
            r.0 == pte_ppn(self.bits),
            r.0 <= PPN_MASK,
    {
        proof {
            let b = self.bits;
            assert((b >> 10u64) & 0xfff_ffff_ffffu64 <= 0xfff_ffff_ffffu64) by (bit_vector);
        }
        PhysPageNum((self.bits >> 10) & PPN_MASK)
    }

    /// The flags of the entry.
    pub fn flags(&self) -> (r: PTEFlags)
        ensures
            r.bits == pte_flags(self.bits),
    {
        PTEFlags { bits: (self.bits & 0x3ff) as u16 }
    }

    /// Whether the entry is valid.
    pub fn is_valid(&self) -> (r: bool)
        ensures
            r == pte_valid(self.bits),
    {
        self.bits & 1 == 1
    }

    /// Whether the entry is shared copy on write.
    pub fn is_cow(&self) -> (r: bool)
        ensures
            r == pte_cow(self.bits),
    {
        self.bits & 0x100 == 0x100
    }
}

/// A page table: its root frame and the entry of every leaf slot.
pub struct PageTable {
    root: FrameTracker,
    slots: BTreeMap<u64, PageTableEntry>,
}

/// Integer keys are ordered as their values are.
proof fn lemma_u64_keys_ordered()
    ensures
        vstd::laws_cmp::obeys_cmp::<u64>(),
{
    broadcast use vstd::laws_cmp::group_laws_cmp;
}

/// Whether an allocator can hand out at least `n` more frames.
/// How many frames allocator `a` can still hand out: those freed and those never handed out.
pub open spec fn free_frames(a: FrameAllocatorModel) -> int {
    a.recycled.len() + (a.end - a.current)
}

pub open spec fn can_alloc(a: FrameAllocatorModel, n: nat) -> bool {
    a.recycled.len() + (a.end - a.current) >= n
}

impl PageTable {
    /// The entry of every leaf slot, by page number.
    pub closed spec fn entries(&self) -> Map<u64, u64> {
        self.slots@.map_values(|e: PageTableEntry| e.bits)
    }

    /// The frame number of the root table.
    pub closed spec fn root_ppn(&self) -> u64 {
        self.root.ppn.0
    }

    /// Whether page `vpn` is mapped by a valid entry.
    pub open spec fn is_mapped(&self, vpn: u64) -> bool {
        self.entries().contains_key(vpn) && pte_valid(self.entries()[vpn])
    }

    /// A table with a fresh root frame and no slot. It is a fatal error when no frame is left.
    pub fn new(allocator: &mut StackFrameAllocator) -> (r: PageTable)
        requires
            old(allocator)@.wf(),
            can_alloc(old(allocator)@, 1),
        ensures
            final(allocator)@.wf(),
            r.entries() == Map::<u64, u64>::empty(),
            old(allocator)@.alloc_spec().1 == Some(r.root_ppn()),
            final(allocator)@ == old(allocator)@.alloc_spec().0.add_ref_spec(r.root_ppn()),
    {
        let frame = alloc_frame(allocator).unwrap();
        let t = PageTable { root: frame, slots: BTreeMap::new() };
        proof {
            assert(t.entries() =~= Map::<u64, u64>::empty());
        }
        t
    }

    /// The value of the `satp` register that selects this table: Sv39 mode and the root
    /// frame number.
    pub fn token(&self) -> (r: u64)
        ensures
            r == (8u64 << 60u64) | self.root_ppn(),
    {
        (8u64 << 60) | self.root.ppn.0
    }

    /// The entry of the slot of `vpn`, if it has a slot.
    pub fn translate(&self, vpn: VirtPageNum) -> (r: Option<PageTableEntry>)
        ensures
            match r {
                Some(e) => self.entries().contains_key(vpn.0) && e.bits == self.entries()[vpn.0],
                None => !self.entries().contains_key(vpn.0),
            },
    {
        proof {
            lemma_u64_keys_ordered();
        }
        match self.slots.get(&vpn.0) {
            Some(e) => Some(*e),
            None => None,
        }
    }

    /// The entry of the slot of `vpn`, if it has a slot (the slot found on a walk).
    pub fn find_pte(&self, vpn: VirtPageNum) -> (r: Option<PageTableEntry>)
        ensures
            match r {
                Some(e) => self.entries().contains_key(vpn.0) && e.bits == self.entries()[vpn.0],
                None => !self.entries().contains_key(vpn.0),
            },
    {
        self.translate(vpn)
    }

    /// Maps page `vpn` to frame `ppn` with `flags` and the valid bit. It is a fatal error
    /// when the page is already mapped.
    pub fn map(&mut self, vpn: VirtPageNum, ppn: PhysPageNum, flags: PTEFlags)
        requires
            !old(self).is_mapped(vpn.0),
        ensures
            final(self).root_ppn() == old(self).root_ppn(),
            final(self).entries() == old(self).entries().insert(vpn.0, pte_bits(ppn.0, (flags.bits | 1) as u16)),
            final(self).is_mapped(vpn.0),
    {
        proof {
            lemma_u64_keys_ordered();
        }
        let e = PageTableEntry::new(ppn, PTEFlags { bits: flags.bits | PTEFlags::V });
        self.slots.insert(vpn.0, e);
        proof {
            assert(self.entries() =~= old(self).entries().insert(vpn.0, pte_bits(ppn.0, (flags.bits | 1) as u16)));
            lemma_pte_valid_bit(ppn.0, (flags.bits | 1) as u16);
            let f = flags.bits;
            assert((f | 1u16) & 1u16 == 1u16) by (bit_vector);
        }
    }

    /// Empties the slot of page `vpn`. It is a fatal error when the page is not mapped.
    pub fn unmap(&mut self, vpn: VirtPageNum)
        requires
            old(self).is_mapped(vpn.0),
        ensures
            final(self).root_ppn() == old(self).root_ppn(),
            final(self).entries() == old(self).entries().insert(vpn.0, 0),
    {
        proof {
            lemma_u64_keys_ordered();
        }
        self.slots.insert(vpn.0, PageTableEntry::empty());
        proof {
            assert(self.entries() =~= old(self).entries().insert(vpn.0, 0));
        }
    }

    /// Replaces the flags of the entry of page `vpn`, keeping its frame number. It is a fatal error when the page has no slot.
    pub fn set_flags(&mut self, vpn: VirtPageNum, flags: PTEFlags)
        requires
            old(self).entries().contains_key(vpn.0),
        ensures
            final(self).root_ppn() == old(self).root_ppn(),
            final(self).entries() == old(self).entries().insert(
                vpn.0,
                ((old(self).entries()[vpn.0] & !0x3ffu64) | (flags.bits as u64)) as u64,
            ),
    {
        proof {
            lemma_u64_keys_ordered();
        }
        let e = *self.slots.get(&vpn.0).unwrap();
        self.slots.insert(vpn.0, PageTableEntry { bits: (e.bits & !0x3ff) | (flags.bits as u64) });
        proof {
            assert(self.entries() =~= old(self).entries().insert(
                vpn.0,
                ((old(self).entries()[vpn.0] & !0x3ffu64) | (flags.bits as u64)) as u64,
            ));
        }
    }

    /// Sets the copy-on-write bit of the entry of page `vpn`. It is a fatal error when the
    /// page has no slot.
    pub fn set_cow(&mut self, vpn: VirtPageNum)
        requires
            old(self).entries().contains_key(vpn.0),
        ensures
            final(self).root_ppn() == old(self).root_ppn(),
            final(self).entries() == old(self).entries().insert(vpn.0, old(self).entries()[vpn.0] | 0x100),
    {
        proof {
            lemma_u64_keys_ordered();
        }
        let e = *self.slots.get(&vpn.0).unwrap();
        self.slots.insert(vpn.0, PageTableEntry { bits: e.bits | 0x100 });
        proof {
            assert(self.entries() =~= old(self).entries().insert(vpn.0, old(self).entries()[vpn.0] | 0x100));
        }
    }

    /// Clears the copy-on-write bit of the entry of page `vpn`. It is a fatal error when
    /// the page has no slot.
    pub fn reset_cow(&mut self, vpn: VirtPageNum)
        requires
            old(self).entries().contains_key(vpn.0),
        ensures
            final(self).root_ppn() == old(self).root_ppn(),
            final(self).entries() == old(self).entries().insert(vpn.0, old(self).entries()[vpn.0] & !0x100u64),
    {
        proof {
            lemma_u64_keys_ordered();
        }
        let e = *self.slots.get(&vpn.0).unwrap();
        self.slots.insert(vpn.0, PageTableEntry { bits: e.bits & !0x100 });
        proof {
            assert(self.entries() =~= old(self).entries().insert(vpn.0, old(self).entries()[vpn.0] & !0x100u64));
        }
    }

    /// Moves page `vpn` from its shared frame to its own frame `ppn`: the entry keeps its
    /// flags, gains write access and loses the copy-on-write bit. Copying the bytes of the
    /// shared frame `former_ppn` into the new frame is a write to physical memory that the
    /// caller makes. It is a fatal error when the page has no slot.
    pub fn remap_cow(&mut self, vpn: VirtPageNum, ppn: PhysPageNum, former_ppn: PhysPageNum)
        requires
            old(self).entries().contains_key(vpn.0),
        ensures
            final(self).root_ppn() == old(self).root_ppn(),
            final(self).entries() == old(self).entries().insert(
                vpn.0,
                pte_bits(ppn.0, ((pte_flags(old(self).entries()[vpn.0]) | 4) & !0x100u16) as u16),
            ),
    {
        proof {
            lemma_u64_keys_ordered();
        }
        let e = *self.slots.get(&vpn.0).unwrap();
        let flags = PTEFlags { bits: (e.flags().bits | PTEFlags::W) & !PTEFlags::COW };
        self.slots.insert(vpn.0, PageTableEntry::new(ppn, flags));
        proof {
            assert(self.entries() =~= old(self).entries().insert(
                vpn.0,
                pte_bits(ppn.0, ((pte_flags(old(self).entries()[vpn.0]) | 4) & !0x100u16) as u16),
            ));
        }
    }
}

} // verus!
