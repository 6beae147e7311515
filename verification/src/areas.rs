//! Two simpler kinds of logical segment: a `MapArea`, a range of pages mapped all at once,
//! and a `ChunkArea`, a list of pages mapped one by one.
use vstd::prelude::*;
use crate::address::{PhysPageNum, VPNRange, VirtAddr, VirtPageNum, PAGE_SIZE};
use crate::flags::{MapPermission, MapType};
use crate::frame_allocator::{alloc_frame, FrameTracker, StackFrameAllocator};
use crate::page_table::{can_alloc, PTEFlags, PageTable};
use crate::vm_area::{area_pte, chunk_count, copied_chunk, copy_chunks, CopyChunk};

verus! {

/// Whether a segment can map its pages: identically or to frames of its own, with rights
/// among the nine permission bits.
pub open spec fn mappable(map_type: MapType, perm: MapPermission) -> bool {
    (map_type is Identical || map_type is Framed) && perm.bits & !0x1ffu16 == 0
}

/// Maps page `vpn` for a segment of kind `map_type` and rights `perm`, keeping the new
/// frame, if any, in `frames`: an identical segment maps it to the frame of the same
/// number, a framed one to a new frame. It is a fatal error when no frame is left, and when
/// the page is already mapped.
fn map_page(
    frames: &mut Vec<FrameTracker>,
    map_type: MapType,
    perm: MapPermission,
    page_table: &mut PageTable,
    vpn: VirtPageNum,
    allocator: &mut StackFrameAllocator,
)
    requires
        old(allocator)@.wf(),
        mappable(map_type, perm),
        map_type is Framed ==> can_alloc(old(allocator)@, 1),
        !old(page_table).is_mapped(vpn.0),
    ensures
        final(allocator)@.wf(),
        final(page_table).root_ppn() == old(page_table).root_ppn(),
        final(page_table).is_mapped(vpn.0),
        map_type is Identical ==> {
            &&& final(allocator)@ == old(allocator)@
            &&& final(frames)@ == old(frames)@
            &&& final(page_table).entries() == old(page_table).entries().insert(vpn.0, area_pte(vpn.0, perm))
        },
        map_type is Framed ==> {
            let p = old(allocator)@.alloc_spec().1->0;
            &&& old(allocator)@.alloc_spec().1 is Some
            &&& final(allocator)@ == old(allocator)@.alloc_spec().0.add_ref_spec(p)
            &&& final(frames)@ == old(frames)@.push(FrameTracker { ppn: PhysPageNum(p) })
            &&& final(page_table).entries() == old(page_table).entries().insert(vpn.0, area_pte(p, perm))
        },
{
    let ppn: PhysPageNum;
    match map_type {
        MapType::Framed => {
            proof {
                crate::frame_allocator::lemma_alloc_fresh(old(allocator)@);
            }
            let frame = alloc_frame(allocator).unwrap();
            ppn = frame.ppn;
            frames.push(frame);
        },
        _ => {
            ppn = PhysPageNum(vpn.0);
        },
    }
    let flags = PTEFlags::from_bits(perm.bits).unwrap();
    page_table.map(vpn, ppn, flags);
}

/// A logical segment of the pages `vpn_range`, mapped all at once, identically or to frames
/// that it owns (`data_frames`), with rights `map_perm`.
pub struct MapArea {
    pub vpn_range: VPNRange,
    pub data_frames: Vec<FrameTracker>,
    pub map_type: MapType,
    pub map_perm: MapPermission,
}

impl MapArea {
    /// The first page of the segment.
    pub open spec fn start(&self) -> u64 {
        self.vpn_range.start_spec()
    }

    /// The page just past the segment.
    pub open spec fn end(&self) -> u64 {
        self.vpn_range.end_spec()
    }

    /// The segment of the pages that cover `[start_va, end_va)`, owning no frame.
    pub fn new(start_va: VirtAddr, end_va: VirtAddr, map_type: MapType, map_perm: MapPermission) -> (r: MapArea)
        requires
            end_va.0 + PAGE_SIZE <= u64::MAX,
            start_va.0 <= end_va.0,
        ensures
            r.vpn_range.wf(),
            r.start() == start_va.0 / PAGE_SIZE,
            r.end() == (end_va.0 + PAGE_SIZE - 1) / (PAGE_SIZE as int),
            r.data_frames@ == Seq::<FrameTracker>::empty(),
            r.map_type == map_type,
            r.map_perm == map_perm,
    {
        let start_vpn = start_va.floor();
        let end_vpn = end_va.ceil();
        proof {
            assert(start_va.0 as int / 4096 <= (end_va.0 + 4095) / 4096) by (nonlinear_arith)
                requires
                    start_va.0 <= end_va.0,
            ;
        }
        MapArea { vpn_range: VPNRange::new(start_vpn, end_vpn), data_frames: Vec::new(), map_type, map_perm }
    }

    /// A segment like `another`, owning no frame.
    pub fn from_another(another: &MapArea) -> (r: MapArea)
        requires
            another.vpn_range.wf(),
        ensures
            r.vpn_range.wf(),
            r.start() == another.start(),
            r.end() == another.end(),
            r.data_frames@ == Seq::<FrameTracker>::empty(),
            r.map_type == another.map_type,
            r.map_perm == another.map_perm,
    {
        MapArea {
            vpn_range: VPNRange::new(another.vpn_range.get_start(), another.vpn_range.get_end()),
            data_frames: Vec::new(),
            map_type: another.map_type,
            map_perm: another.map_perm,
        }
    }

    /// Maps page `vpn` as the segment maps its pages (see `map_page`).
    pub fn map_one(&mut self, page_table: &mut PageTable, vpn: VirtPageNum, allocator: &mut StackFrameAllocator)
        requires
            old(allocator)@.wf(),
            mappable(old(self).map_type, old(self).map_perm),
            old(self).map_type is Framed ==> can_alloc(old(allocator)@, 1),
            !old(page_table).is_mapped(vpn.0),
        ensures
            final(allocator)@.wf(),
            final(self).vpn_range == old(self).vpn_range,
            final(self).map_type == old(self).map_type,
            final(self).map_perm == old(self).map_perm,
            final(page_table).root_ppn() == old(page_table).root_ppn(),
            final(page_table).is_mapped(vpn.0),
            old(self).map_type is Identical ==> {
                &&& final(allocator)@ == old(allocator)@
                &&& final(self).data_frames@ == old(self).data_frames@
                &&& final(page_table).entries() == old(page_table).entries().insert(
                    vpn.0,
                    area_pte(vpn.0, old(self).map_perm),
                )
            },
            old(self).map_type is Framed ==> {
                let p = old(allocator)@.alloc_spec().1->0;
                &&& old(allocator)@.alloc_spec().1 is Some
                &&& final(allocator)@ == old(allocator)@.alloc_spec().0.add_ref_spec(p)
                &&& final(self).data_frames@ == old(self).data_frames@.push(FrameTracker { ppn: PhysPageNum(p) })
                &&& final(page_table).entries() == old(page_table).entries().insert(
                    vpn.0,
                    area_pte(p, old(self).map_perm),
                )
            },
    {
        map_page(&mut self.data_frames, self.map_type, self.map_perm, page_table, vpn, allocator);
    }

    /// Maps every page of the segment: to itself in an identical segment, else to a new frame
    /// each, kept in order after the frames the segment owned. It is a fatal error when no
    /// frame is left, and when a page is already mapped.
    pub fn map(&mut self, page_table: &mut PageTable, allocator: &mut StackFrameAllocator)
        requires
            old(allocator)@.wf(),
            old(self).vpn_range.wf(),
            mappable(old(self).map_type, old(self).map_perm),
            old(self).map_type is Framed ==> can_alloc(old(allocator)@, (old(self).end() - old(self).start()) as nat),
            forall|v: u64| old(self).start() <= v < old(self).end() ==> !#[trigger] old(page_table).is_mapped(v),
        ensures
            final(allocator)@.wf(),
            final(self).vpn_range == old(self).vpn_range,
            final(self).map_type == old(self).map_type,
            final(self).map_perm == old(self).map_perm,
            final(page_table).root_ppn() == old(page_table).root_ppn(),
            forall|v: u64|
                !(old(self).start() <= v < old(self).end()) ==> #[trigger] final(page_table).entries().contains_key(v)
                    == old(page_table).entries().contains_key(v) && (old(page_table).entries().contains_key(v)
                    ==> final(page_table).entries()[v] == old(page_table).entries()[v]),
            old(self).map_type is Identical ==> final(self).data_frames@ == old(self).data_frames@ && forall|v: u64|
                old(self).start() <= v < old(self).end() ==> #[trigger] final(page_table).entries().contains_key(v)
                    && final(page_table).entries()[v] == area_pte(v, old(self).map_perm),
            old(self).map_type is Framed ==> {
                &&& final(self).data_frames@.len() == old(self).data_frames@.len() + (old(self).end() - old(
                    self,
                ).start())
                &&& final(self).data_frames@.take(old(self).data_frames@.len() as int) == old(self).data_frames@
                &&& forall|v: u64|
                    old(self).start() <= v < old(self).end() ==> #[trigger] final(page_table).entries().contains_key(v)
                        && final(page_table).entries()[v] == area_pte(
                        final(self).data_frames@[old(self).data_frames@.len() + (v - old(self).start())].ppn.0,
                        old(self).map_perm,
                    )
            },
    {
        let start = self.vpn_range.get_start().0;
        let end = self.vpn_range.get_end().0;
        let ghost n0 = self.data_frames@.len();
        let ghost e0 = page_table.entries();
        let mut vpn = start;
        while vpn < end
            invariant
                start == old(self).start(),
                end == old(self).end(),
                start <= vpn <= end,
                n0 == old(self).data_frames@.len(),
                e0 == old(page_table).entries(),
                self.vpn_range == old(self).vpn_range,
                self.map_type == old(self).map_type,
                self.map_perm == old(self).map_perm,
                mappable(self.map_type, self.map_perm),
                allocator@.wf(),
                page_table.root_ppn() == old(page_table).root_ppn(),
                self.map_type is Framed ==> can_alloc(allocator@, (end - vpn) as nat),
                forall|v: u64| vpn <= v < end ==> !#[trigger] page_table.is_mapped(v),
                forall|v: u64|
                    !(start <= v < vpn) ==> #[trigger] page_table.entries().contains_key(v) == e0.contains_key(v)
                        && (e0.contains_key(v) ==> page_table.entries()[v] == e0[v]),
                self.map_type is Identical ==> self.data_frames@ == old(self).data_frames@ && forall|v: u64|
                    start <= v < vpn ==> #[trigger] page_table.entries().contains_key(v) && page_table.entries()[v]
                        == area_pte(v, self.map_perm),
                self.map_type is Framed ==> {
                    &&& self.data_frames@.len() == n0 + (vpn - start)
                    &&& self.data_frames@.take(n0 as int) == old(self).data_frames@
                    &&& forall|v: u64|
                        start <= v < vpn ==> #[trigger] page_table.entries().contains_key(v)
                            && page_table.entries()[v] == area_pte(
                            self.data_frames@[n0 + (v - start)].ppn.0,
                            self.map_perm,
                        )
                },
            decreases end - vpn,
        {
            let ghost f0 = self.data_frames@;
            let ghost a0 = allocator@;
            let ghost pt0 = *page_table;
            self.map_one(page_table, VirtPageNum(vpn), allocator);
            proof {
                assert forall|v: u64| vpn + 1 <= v < end implies !#[trigger] page_table.is_mapped(v) by {
                    assert(!pt0.is_mapped(v));
                    assert(page_table.entries().contains_key(v) == pt0.entries().contains_key(v));
                }
                if self.map_type is Framed {
                    assert(self.data_frames@.take(n0 as int) =~= f0.take(n0 as int));
                    assert forall|v: u64| start <= v < vpn + 1 implies #[trigger] page_table.entries().contains_key(v)
                        && page_table.entries()[v] == area_pte(self.data_frames@[n0 + (v - start)].ppn.0, self.map_perm) by {
                        if v < vpn {
                            assert(self.data_frames@[n0 + (v - start)] == f0[n0 + (v - start)]);
                        }
                    }
                }
            }
            vpn = vpn + 1;
        }
    }

    /// Takes every page of the segment out of the page table. It is a fatal error when a
    /// page is not mapped.
    pub fn unmap(&mut self, page_table: &mut PageTable)
        requires
            old(self).vpn_range.wf(),
            forall|v: u64| old(self).start() <= v < old(self).end() ==> #[trigger] old(page_table).is_mapped(v),
        ensures
            *final(self) == *old(self),
            final(page_table).root_ppn() == old(page_table).root_ppn(),
            forall|v: u64|
                #[trigger] final(page_table).entries().contains_key(v) == old(page_table).entries().contains_key(v),
            forall|v: u64|
                old(self).start() <= v < old(self).end() ==> #[trigger] final(page_table).entries()[v] == 0,
            forall|v: u64|
                !(old(self).start() <= v < old(self).end()) && old(page_table).entries().contains_key(v)
                    ==> #[trigger] final(page_table).entries()[v] == old(page_table).entries()[v],
    {
        let start = self.vpn_range.get_start().0;
        let end = self.vpn_range.get_end().0;
        let ghost e0 = page_table.entries();
        let mut vpn = start;
        while vpn < end
            invariant
                start == self.start(),
                end == self.end(),
                start <= vpn <= end,
                e0 == old(page_table).entries(),
                page_table.root_ppn() == old(page_table).root_ppn(),
                forall|v: u64| vpn <= v < end ==> #[trigger] page_table.is_mapped(v),
                forall|v: u64| #[trigger] page_table.entries().contains_key(v) == e0.contains_key(v),
                forall|v: u64| start <= v < vpn ==> #[trigger] page_table.entries()[v] == 0,
                forall|v: u64|
                    !(start <= v < vpn) && e0.contains_key(v) ==> #[trigger] page_table.entries()[v] == e0[v],
            decreases end - vpn,
        {
            assert(page_table.is_mapped(vpn));
            let ghost pt0 = *page_table;
            page_table.unmap(VirtPageNum(vpn));
            proof {
                assert forall|v: u64| vpn + 1 <= v < end implies #[trigger] page_table.is_mapped(v) by {
                    assert(pt0.is_mapped(v));
                    assert(page_table.entries()[v] == pt0.entries()[v]);
                }
                assert(pt0.entries().contains_key(vpn));
                assert forall|v: u64| #[trigger] page_table.entries().contains_key(v) == e0.contains_key(v) by {
                    assert(pt0.entries().contains_key(v) == e0.contains_key(v));
                    if v != vpn {
                        assert(page_table.entries().contains_key(v) == pt0.entries().contains_key(v));
                    } else {
                        assert(page_table.entries().contains_key(v));
                    }
                }
            }
            vpn = vpn + 1;
        }
    }

    /// The copies that write `data_len` bytes of a program file from offset `data_start` into
    /// the frames of the segment from byte `page_offset` of its first page on (see
    /// `copy_chunks`), as the caller makes them. It is a fatal error on a segment that is not
    /// framed, and on a page without an entry.
    pub fn copy_data(&self, page_table: &PageTable, data_start: u64, data_len: u64, page_offset: u64) -> (r: Vec<
        CopyChunk,
    >)
        requires
            self.map_type is Framed,
            page_offset < PAGE_SIZE,
            self.start() + chunk_count(page_offset, data_len) <= u64::MAX,
            data_start + data_len + PAGE_SIZE <= u64::MAX,
            forall|k: int| 0 <= k < chunk_count(page_offset, data_len)
                ==> page_table.entries().contains_key(#[trigger] (self.start() + k) as u64),
        ensures
            r@.len() == chunk_count(page_offset, data_len),
            forall|k: int|
                0 <= k < r@.len() ==> copied_chunk(
                    #[trigger] r@[k],
                    k,
                    self.start(),
                    page_table.entries(),
                    data_start,
                    data_len,
                    page_offset,
                ),
    {
        copy_chunks(self.vpn_range.get_start().0, page_table, data_start, data_len, page_offset)
    }
}

/// A logical segment of the pages listed in `vpn_table`, mapped one by one as they are
/// added, identically or to frames that it owns (`data_frames`), with rights `map_perm`,
/// inside the addresses `[start_va, end_va)`.
pub struct ChunkArea {
    pub vpn_table: Vec<VirtPageNum>,
    pub data_frames: Vec<FrameTracker>,
    pub map_type: MapType,
    pub map_perm: MapPermission,
    pub start_va: VirtAddr,
    pub end_va: VirtAddr,
}

/// What the clean-up of `set_mmap_range` leaves of the page list `cur`, going through the
/// list `orig` as it was, from position `i` on: for each page of `orig` at or above `end`,
/// it removes the entry at that same position of the list as it stands then (so that later
/// removals land one place further along). `None` when such a position is past the end of
/// the list, on a fatal error.
pub open spec fn trimmed(orig: Seq<VirtPageNum>, cur: Seq<VirtPageNum>, i: int, end: u64) -> Option<Seq<VirtPageNum>>
    decreases orig.len() - i,
{
    if i < 0 || i >= orig.len() {
        Some(cur)
    } else if (orig[i].0 << 12u64) >= end {
        if i < cur.len() {
            trimmed(orig, cur.remove(i), i + 1, end)
        } else {
            None
        }
    } else {
        trimmed(orig, cur, i + 1, end)
    }
}

impl ChunkArea {
    /// A segment of no page, inside `[start, end)`.
    pub fn new(map_type: MapType, map_perm: MapPermission, start: VirtAddr, end: VirtAddr) -> (r: ChunkArea)
        ensures
            r.vpn_table@ == Seq::<VirtPageNum>::empty(),
            r.data_frames@ == Seq::<FrameTracker>::empty(),
            r.map_type == map_type,
            r.map_perm == map_perm,
            r.start_va == start,
            r.end_va == end,
    {
        ChunkArea { vpn_table: Vec::new(), data_frames: Vec::new(), map_type, map_perm, start_va: start, end_va: end }
    }

    /// A segment like `another`, with no page.
    pub fn from_another(another: &ChunkArea) -> (r: ChunkArea)
        ensures
            r.vpn_table@ == Seq::<VirtPageNum>::empty(),
            r.data_frames@ == Seq::<FrameTracker>::empty(),
            r.map_type == another.map_type,
            r.map_perm == another.map_perm,
            r.start_va == another.start_va,
            r.end_va == another.end_va,
    {
        ChunkArea {
            vpn_table: Vec::new(),
            data_frames: Vec::new(),
            map_type: another.map_type,
            map_perm: another.map_perm,
            start_va: another.start_va,
            end_va: another.end_va,
        }
    }

    /// Moves the segment to `[start, end)` and drops from its list the pages at or above
    /// `end`, as `trimmed` says (the frames are kept). It is a fatal error where `trimmed`
    /// is `None`.
    pub fn set_mmap_range(&mut self, start: VirtAddr, end: VirtAddr)
        requires
            trimmed(old(self).vpn_table@, old(self).vpn_table@, 0, end.0) is Some,
        ensures
            final(self).start_va == start,
            final(self).end_va == end,
            final(self).vpn_table@ == trimmed(old(self).vpn_table@, old(self).vpn_table@, 0, end.0)->0,
            final(self).data_frames@ == old(self).data_frames@,
            final(self).map_type == old(self).map_type,
            final(self).map_perm == old(self).map_perm,
    {
        self.start_va = start;
        self.end_va = end;
        let orig = self.vpn_table.clone();
        proof {
            assert(orig@ =~= old(self).vpn_table@);
        }
        let mut idx: usize = 0;
        while idx < orig.len()
            invariant
                idx <= orig@.len(),
                orig@ == old(self).vpn_table@,
                self.start_va == start,
                self.end_va == end,
                self.data_frames@ == old(self).data_frames@,
                self.map_type == old(self).map_type,
                self.map_perm == old(self).map_perm,
                trimmed(orig@, self.vpn_table@, idx as int, end.0) == trimmed(orig@, orig@, 0, end.0),
                trimmed(orig@, orig@, 0, end.0) is Some,
            decreases orig@.len() - idx,
        {
            if orig[idx].start_addr().0 >= end.0 {
                self.vpn_table.remove(idx);
            }
            idx = idx + 1;
        }
    }

    /// Maps page `vpn` as the segment maps its pages (see `map_page`).
    pub fn map_one(&mut self, page_table: &mut PageTable, vpn: VirtPageNum, allocator: &mut StackFrameAllocator)
        requires
            old(allocator)@.wf(),
            mappable(old(self).map_type, old(self).map_perm),
            old(self).map_type is Framed ==> can_alloc(old(allocator)@, 1),
            !old(page_table).is_mapped(vpn.0),
        ensures
            final(allocator)@.wf(),
            final(self).vpn_table@ == old(self).vpn_table@,
            final(self).map_type == old(self).map_type,
            final(self).map_perm == old(self).map_perm,
            final(self).start_va == old(self).start_va,
            final(self).end_va == old(self).end_va,
            final(page_table).root_ppn() == old(page_table).root_ppn(),
            final(page_table).is_mapped(vpn.0),
            old(self).map_type is Identical ==> {
                &&& final(allocator)@ == old(allocator)@
                &&& final(self).data_frames@ == old(self).data_frames@
                &&& final(page_table).entries() == old(page_table).entries().insert(
                    vpn.0,
                    area_pte(vpn.0, old(self).map_perm),
                )
            },
            old(self).map_type is Framed ==> {
                let p = old(allocator)@.alloc_spec().1->0;
                &&& old(allocator)@.alloc_spec().1 is Some
                &&& final(allocator)@ == old(allocator)@.alloc_spec().0.add_ref_spec(p)
                &&& final(self).data_frames@ == old(self).data_frames@.push(FrameTracker { ppn: PhysPageNum(p) })
                &&& final(page_table).entries() == old(page_table).entries().insert(
                    vpn.0,
                    area_pte(p, old(self).map_perm),
                )
            },
    {
        map_page(&mut self.data_frames, self.map_type, self.map_perm, page_table, vpn, allocator);
    }

    /// Adds page `vpn` to the list of the segment and maps it (see `map_one`).
    pub fn push_vpn(&mut self, vpn: VirtPageNum, page_table: &mut PageTable, allocator: &mut StackFrameAllocator)
        requires
            old(allocator)@.wf(),
            mappable(old(self).map_type, old(self).map_perm),
            old(self).map_type is Framed ==> can_alloc(old(allocator)@, 1),
            !old(page_table).is_mapped(vpn.0),
        ensures
            final(allocator)@.wf(),
            final(self).vpn_table@ == old(self).vpn_table@.push(vpn),
            final(page_table).is_mapped(vpn.0),
            old(self).map_type is Identical ==> final(page_table).entries() == old(page_table).entries().insert(
                vpn.0,
                area_pte(vpn.0, old(self).map_perm),
            ),
            old(self).map_type is Framed ==> final(page_table).entries() == old(page_table).entries().insert(
                vpn.0,
                area_pte(old(allocator)@.alloc_spec().1->0, old(self).map_perm),
            ) && final(self).data_frames@ == old(self).data_frames@.push(
                FrameTracker { ppn: PhysPageNum(old(allocator)@.alloc_spec().1->0) },
            ),
    {
        self.vpn_table.push(vpn);
        self.map_one(page_table, vpn, allocator);
    }

    /// Takes every listed page out of the page table. It is a fatal error when a page is
    /// not mapped, which a page listed twice is the second time.
    pub fn unmap(&mut self, page_table: &mut PageTable)
        requires
            old(self).vpn_table@.no_duplicates(),
            forall|i: int|
                0 <= i < old(self).vpn_table@.len() ==> old(page_table).is_mapped(#[trigger] old(self).vpn_table@[i].0),
        ensures
            *final(self) == *old(self),
            final(page_table).root_ppn() == old(page_table).root_ppn(),
            forall|v: u64|
                #[trigger] final(page_table).entries().contains_key(v) == old(page_table).entries().contains_key(v),
            forall|i: int|
                0 <= i < old(self).vpn_table@.len() ==> final(page_table).entries()[#[trigger] old(self).vpn_table@[i].0]
                    == 0,
            forall|v: u64|
                (forall|i: int| 0 <= i < old(self).vpn_table@.len() ==> old(self).vpn_table@[i].0 != v) && old(
                    page_table,
                ).entries().contains_key(v) ==> #[trigger] final(page_table).entries()[v] == old(page_table).entries()[v],
    {
        let table = self.vpn_table.clone();
        proof {
            assert(table@ =~= self.vpn_table@);
        }
        let ghost e0 = page_table.entries();
        let mut i: usize = 0;
        while i < table.len()
            invariant
                table@ == old(self).vpn_table@,
                table@.no_duplicates(),
                i <= table@.len(),
                e0 == old(page_table).entries(),
                page_table.root_ppn() == old(page_table).root_ppn(),
                forall|j: int| i <= j < table@.len() ==> page_table.is_mapped(#[trigger] table@[j].0),
                forall|v: u64| #[trigger] page_table.entries().contains_key(v) == e0.contains_key(v),
                forall|j: int| 0 <= j < i ==> page_table.entries()[#[trigger] table@[j].0] == 0,
                forall|v: u64|
                    (forall|j: int| 0 <= j < i ==> table@[j].0 != v) && e0.contains_key(v)
                        ==> #[trigger] page_table.entries()[v] == e0[v],
            decreases table@.len() - i,
        {
            let v = table[i];
            proof {
                assert forall|j: int| i < j < table@.len() implies table@[j].0 != v.0 by {
                    assert(table@[j] != table@[i as int]);
                }
            }
            assert(page_table.is_mapped(table@[i as int].0));
            let ghost pt0 = *page_table;
            page_table.unmap(v);
            proof {
                assert forall|j: int| i + 1 <= j < table@.len() implies page_table.is_mapped(#[trigger] table@[j].0) by {
                    assert(pt0.is_mapped(table@[j].0));
                    assert(page_table.entries()[table@[j].0] == pt0.entries()[table@[j].0]);
                }
                assert(pt0.entries().contains_key(v.0));
                assert forall|w: u64| #[trigger] page_table.entries().contains_key(w) == e0.contains_key(w) by {
                    assert(pt0.entries().contains_key(w) == e0.contains_key(w));
                    if w != v.0 {
                        assert(page_table.entries().contains_key(w) == pt0.entries().contains_key(w));
                    } else {
                        assert(page_table.entries().contains_key(w));
                    }
                }
            }
            i = i + 1;
        }
    }
}

} // verus!
