//! A contiguous area of a virtual address space, mapped the same way from end to end.
use vstd::prelude::*;
use std::collections::BTreeMap;
use crate::address::{PhysPageNum, VPNRange, VirtAddr, VirtPageNum, PAGE_SIZE};
use vstd::math::min;
use crate::flags::{MapPermission, MapType};
use crate::frame_allocator::{alloc_frame, FrameAllocatorModel, FrameTracker, StackFrameAllocator};
use crate::page_table::{can_alloc, free_frames, pte_bits, pte_ppn, pte_valid, PTEFlags, PageTable};

verus! {

/// What an area is used for.
#[derive(Copy, Clone, PartialEq, Eq, Debug, Structural)]
pub enum VmAreaType {
    UserHeap,
    UserStack,
    Elf,
    TrapContext,
    Shared,
    KernelStack,
    KernelSpace,
}

/// Integer keys are ordered as their values are.
proof fn lemma_u64_keys_ordered()
    ensures
        vstd::laws_cmp::obeys_cmp::<u64>(),
{
    broadcast use vstd::laws_cmp::group_laws_cmp;
}

/// The frame that an area maps page `vpn` to when it maps pages to frames by rule (all but
/// `Framed`): the same number, or the number moved by the offset (truncated to 64 bits).
pub open spec fn rule_ppn(map_type: MapType, vpn: u64) -> u64 {
    match map_type {
        MapType::Linear(off) => (vpn + off) as u64,
        _ => vpn,
    }
}

/// Whether an area can map page `vpn` by its rule without a fatal error: a
/// `Linear` area only maps Sv39 page numbers, and the sum must not overflow.
pub open spec fn rule_ok(map_type: MapType, vpn: u64) -> bool {
    match map_type {
        MapType::Linear(off) => vpn < 0x800_0000 && i64::MIN <= vpn + off <= i64::MAX,
        _ => true,
    }
}

/// The entry bits with which an area of rights `perm` maps frame `ppn`: the rights and the
/// valid bit.
pub open spec fn area_pte(ppn: u64, perm: MapPermission) -> u64 {
    pte_bits(ppn, (perm.bits | 1) as u16)
}

/// What mapping every page of area `before` does: the area becomes `after`, the entries of
/// the page table go from `pt0` to `pt1` and the allocator from `a0` to `a1`. Pages outside
/// the area keep their entries; every page of the area gets a valid entry, to the frame its
/// rule gives or, in a `Framed` area, to a frame that was free before, that the area then
/// owns and that has one reference; the frames handed out before keep their counts.
pub open spec fn inflated(
    before: VmArea,
    after: VmArea,
    pt0: Map<u64, u64>,
    pt1: Map<u64, u64>,
    a0: FrameAllocatorModel,
    a1: FrameAllocatorModel,
) -> bool {
    &&& after.vpn_range == before.vpn_range
    &&& after.map_type == before.map_type
    &&& after.area_type == before.area_type
    &&& after.permission == before.permission
    &&& after.file == before.file
    &&& after.file_offset == before.file_offset
    &&& forall|v: u64| !before.holds(v) ==> #[trigger] pt1.contains_key(v) == pt0.contains_key(v)
        && (pt0.contains_key(v) ==> pt1[v] == pt0[v])
    &&& forall|v: u64| #[trigger] before.holds(v) ==> pt1.contains_key(v) && pte_valid(pt1[v])
    &&& !(before.map_type is Framed) ==> {
        &&& a1 == a0
        &&& after.frames() == before.frames()
        &&& forall|v: u64| #[trigger] before.holds(v) ==> pt1[v] == area_pte(
            rule_ppn(before.map_type, v),
            before.permission,
        )
    }
    &&& before.map_type is Framed ==> {
        &&& forall|v: u64| !before.holds(v) ==> #[trigger] after.frames().contains_key(v)
            == before.frames().contains_key(v) && (before.frames().contains_key(v)
            ==> after.frames()[v] == before.frames()[v])
        &&& forall|v: u64| #[trigger] before.holds(v) ==> {
            &&& after.frames().contains_key(v)
            &&& !a0.allocated(after.frames()[v].ppn.0)
            &&& a1.allocated(after.frames()[v].ppn.0)
            &&& a1.refs[after.frames()[v].ppn.0] == 1
            &&& pt1[v] == area_pte(after.frames()[v].ppn.0, before.permission)
        }
        &&& forall|p: u64| #[trigger] a0.allocated(p) ==> a1.allocated(p) && a1.refs[p] == a0.refs[p]
        &&& free_frames(a1) == free_frames(a0) - (before.end() - before.start())
        &&& forall|v1: u64, v2: u64|
            #![trigger after.frames()[v1], after.frames()[v2]]
            before.holds(v1) && before.holds(v2) && v1 != v2 ==> after.frames()[v1].ppn.0
                != after.frames()[v2].ppn.0
    }
}

/// What mapping page `vpn` of area `before` does (see `VmArea::lazy_map_vpn`), with the
/// handle `r` handed back: a `Framed` area maps the page to the frame that the allocator
/// hands out next and owns it, handing back the handle it held for the page before, if any;
/// the other areas map it by their rule.
pub open spec fn mapped_one(
    before: VmArea,
    after: VmArea,
    vpn: u64,
    pt0: Map<u64, u64>,
    pt1: Map<u64, u64>,
    a0: FrameAllocatorModel,
    a1: FrameAllocatorModel,
    r: Option<FrameTracker>,
) -> bool {
    &&& after.vpn_range == before.vpn_range
    &&& after.map_type == before.map_type
    &&& after.area_type == before.area_type
    &&& after.permission == before.permission
    &&& after.file == before.file
    &&& after.file_offset == before.file_offset
    &&& before.map_type is Framed ==> {
        let p = a0.alloc_spec().1->0;
        &&& a0.alloc_spec().1 is Some
        &&& a1 == a0.alloc_spec().0.add_ref_spec(p)
        &&& after.frames() == before.frames().insert(vpn, FrameTracker { ppn: PhysPageNum(p) })
        &&& pt1 == pt0.insert(vpn, area_pte(p, before.permission))
        &&& r == (if before.frames().contains_key(vpn) {
            Some(before.frames()[vpn])
        } else {
            None
        })
    }
    &&& !(before.map_type is Framed) ==> {
        &&& a1 == a0
        &&& after.frames() == before.frames()
        &&& pt1 == pt0.insert(vpn, area_pte(rule_ppn(before.map_type, vpn), before.permission))
        &&& r is None
    }
}

/// Whether `a` is the area that `VmArea::new` builds from these arguments: the pages that
/// cover `[start_va, end_va)`, no frame owned.
pub open spec fn fresh(
    a: VmArea,
    start_va: u64,
    end_va: u64,
    map_type: MapType,
    area_type: VmAreaType,
    permission: MapPermission,
    file: Option<u64>,
    file_offset: usize,
) -> bool {
    &&& a.vpn_range.wf()
    &&& a.start() == start_va / PAGE_SIZE
    &&& a.end() == (end_va + PAGE_SIZE - 1) / (PAGE_SIZE as int)
    &&& a.map_type == map_type
    &&& a.area_type == area_type
    &&& a.permission == permission
    &&& a.file == file
    &&& a.file_offset == file_offset
    &&& a.frames() == Map::<u64, FrameTracker>::empty()
}

/// What unmapping every page of area `a` does to the entries of a page table: those of the
/// area's pages are emptied, the others are kept.
pub open spec fn erased(a: VmArea, pt0: Map<u64, u64>, pt1: Map<u64, u64>) -> bool {
    &&& forall|v: u64| #[trigger] pt1.contains_key(v) == pt0.contains_key(v)
    &&& forall|v: u64| #[trigger] a.holds(v) ==> pt1[v] == 0
    &&& forall|v: u64| !a.holds(v) && pt0.contains_key(v) ==> #[trigger] pt1[v] == pt0[v]
}

/// One copy of file bytes into a frame: `len` bytes of the file from `file_offset`, into
/// frame `ppn` (the frame of page `vpn`) from byte `page_offset`.
#[derive(Copy, Clone, PartialEq, Eq, Debug, Structural)]
pub struct CopyChunk {
    pub vpn: u64,
    pub ppn: u64,
    pub page_offset: u64,
    pub file_offset: u64,
    pub len: u64,
}

/// How many bytes come before chunk `k` when `data_len` bytes are copied from byte
/// `page_offset` of the first page on: the first chunk fills its page from `page_offset`,
/// the others fill whole pages.
pub open spec fn bytes_before(k: int, page_offset: u64, data_len: u64) -> int {
    if k == 0 {
        0
    } else {
        min(data_len as int, PAGE_SIZE - page_offset) + (k - 1) * PAGE_SIZE
    }
}

/// The number of chunks of a copy of `data_len` bytes from byte `page_offset` of the first
/// page on (at least one).
pub open spec fn chunk_count(page_offset: u64, data_len: u64) -> int {
    if data_len <= PAGE_SIZE - page_offset {
        1
    } else {
        1 + (data_len - (PAGE_SIZE - page_offset) + PAGE_SIZE - 1) / (PAGE_SIZE as int)
    }
}

/// Chunk `m` of a copy, which holds up to `cap` bytes, is its last one exactly when the
/// bytes before it and its own cover the copy.
proof fn lemma_chunk_count(page_offset: u64, data_len: u64, m: int)
    requires
        page_offset < PAGE_SIZE,
        m >= 0,
        bytes_before(m, page_offset, data_len) <= data_len,
        m > 0 ==> bytes_before(m, page_offset, data_len) < data_len,
    ensures
        ({
            let cap = if m == 0 {
                PAGE_SIZE - page_offset
            } else {
                PAGE_SIZE as int
            };
            &&& data_len <= bytes_before(m, page_offset, data_len) + cap ==> chunk_count(page_offset, data_len) == m + 1
            &&& data_len > bytes_before(m, page_offset, data_len) + cap ==> chunk_count(page_offset, data_len) > m + 1
                && bytes_before(m + 1, page_offset, data_len) == bytes_before(m, page_offset, data_len) + cap
        }),
{
    let p = PAGE_SIZE as int;
    let first = p - page_offset;
    if m == 0 {
        if data_len > first {
            let x = data_len - first;
            assert((x + p - 1) / p >= 1) by (nonlinear_arith)
                requires
                    x > 0,
                    p == 4096,
            ;
        }
    } else {
        assert(data_len > first);
        let x = data_len - first;
        assert(x > (m - 1) * p);
        if x <= m * p {
            assert((x + p - 1) / p == m) by (nonlinear_arith)
                requires
                    x > (m - 1) * p,
                    x <= m * p,
                    p == 4096,
                    m >= 1,
            ;
        } else {
            assert((x + p - 1) / p >= m + 1) by (nonlinear_arith)
                requires
                    x > m * p,
                    p == 4096,
                    m >= 1,
            ;
        }
    }
}

/// A contiguous area of pages, mapped one way, with the frames it owns by page number.
pub struct VmArea {
    pub area_type: VmAreaType,
    pub vpn_range: VPNRange,
    pub map_type: MapType,
    pub permission: MapPermission,
    /// Handle on the file mapped into the area, if any.
    pub file: Option<u64>,
    /// Offset of the area in the mapped file.
    pub file_offset: usize,
    /// The frames owned by the area, by page number.
    pub frame_map: BTreeMap<u64, FrameTracker>,
}

impl VmArea {
    /// The frames owned by the area, by page number.
    pub open spec fn frames(&self) -> Map<u64, FrameTracker> {
        self.frame_map@
    }

    /// The first page of the area.
    pub open spec fn start(&self) -> u64 {
        self.vpn_range.start_spec()
    }

    /// The page just past the area.
    pub open spec fn end(&self) -> u64 {
        self.vpn_range.end_spec()
    }

    /// Whether the area holds page `vpn`.
    pub open spec fn holds(&self, vpn: u64) -> bool {
        self.start() <= vpn < self.end()
    }

    /// The area of the pages that cover `[start_va, end_va)`, owning no frame yet.
    pub fn new(
        start_va: VirtAddr,
        end_va: VirtAddr,
        map_type: MapType,
        area_type: VmAreaType,
        permission: MapPermission,
        file: Option<u64>,
        file_offset: usize,
    ) -> (r: VmArea)
        requires
            end_va.0 + PAGE_SIZE <= u64::MAX,
            start_va.0 as int / (PAGE_SIZE as int) <= (end_va.0 + PAGE_SIZE - 1) / (PAGE_SIZE as int),
        ensures
            fresh(r, start_va.0, end_va.0, map_type, area_type, permission, file, file_offset),
    {
        VmArea {
            vpn_range: VPNRange::from_va(start_va, end_va),
            map_type,
            area_type,
            permission,
            frame_map: BTreeMap::new(),
            file,
            file_offset,
        }
    }

    /// An area like `another`, owning no frame.
    pub fn from_another(another: &VmArea) -> (r: VmArea)
        ensures
            r.vpn_range == another.vpn_range,
            r.map_type == another.map_type,
            r.area_type == another.area_type,
            r.permission == another.permission,
            r.file == another.file,
            r.file_offset == another.file_offset,
            r.frames() == Map::<u64, FrameTracker>::empty(),
    {
        VmArea {
            vpn_range: another.vpn_range,
            frame_map: BTreeMap::new(),
            map_type: another.map_type,
            area_type: another.area_type,
            permission: another.permission,
            file: another.file,
            file_offset: another.file_offset,
        }
    }

    /// The first page of the area.
    pub fn start_vpn(&self) -> (r: VirtPageNum)
        ensures
            r.0 == self.start(),
    {
        self.vpn_range.get_start()
    }

    /// The page just past the area.
    pub fn end_vpn(&self) -> (r: VirtPageNum)
        ensures
            r.0 == self.end(),
    {
        self.vpn_range.get_end()
    }

    /// Maps page `vpn` as the area maps its pages, and returns the handle that the area
    /// held for that page before, if any. A `Framed` area maps it to a new frame that it
    /// then owns; the others map it by rule. It is a fatal error when no frame is left.
    fn map_one(
        &mut self,
        page_table: &mut PageTable,
        vpn: VirtPageNum,
        allocator: &mut StackFrameAllocator,
    ) -> (r: Option<FrameTracker>)
        requires
            old(allocator)@.wf(),
            old(self).map_type is Framed ==> can_alloc(old(allocator)@, 1),
            rule_ok(old(self).map_type, vpn.0),
            !old(page_table).is_mapped(vpn.0),
            old(self).permission.bits & !0x1ffu16 == 0,
        ensures
            final(allocator)@.wf(),
            final(page_table).root_ppn() == old(page_table).root_ppn(),
            final(page_table).is_mapped(vpn.0),
            mapped_one(
                *old(self),
                *final(self),
                vpn.0,
                old(page_table).entries(),
                final(page_table).entries(),
                old(allocator)@,
                final(allocator)@,
                r,
            ),
    {
        proof {
            lemma_u64_keys_ordered();
        }
        let ppn: PhysPageNum;
        let mut displaced: Option<FrameTracker> = None;
        match self.map_type {
            MapType::Identical => {
                ppn = PhysPageNum(vpn.0);
            },
            MapType::Framed => {
                let frame = alloc_frame(allocator).unwrap();
                ppn = frame.ppn;
                displaced = self.frame_map.insert(vpn.0, frame);
            },
            MapType::Linear(pn_offset) => {
                ppn = PhysPageNum(linear_ppn(vpn.0, pn_offset));
            },
        }
        let pte_flags = PTEFlags::from_bits(self.permission.bits).unwrap();
        page_table.map(vpn, ppn, pte_flags);
        displaced
    }

    /// The copies that write `data_len` bytes of the area's file, from offset `data_start`,
    /// into the frames of the area from byte `page_offset` of its first page on, page after
    /// page, as the caller makes them. It is a fatal error on an area that is not `Framed`
    /// or has no file, and on a page without an entry.
    pub fn copy_data(
        &self,
        page_table: &PageTable,
        data_start: u64,
        data_len: u64,
        page_offset: u64,
    ) -> (r: Vec<CopyChunk>)
        requires
            self.map_type is Framed,
            self.file is Some,
            page_offset < PAGE_SIZE,
            self.start() + chunk_count(page_offset, data_len) <= u64::MAX,
            data_start + data_len + PAGE_SIZE <= u64::MAX,
            forall|k: int| 0 <= k < chunk_count(page_offset, data_len)
                ==> page_table.entries().contains_key(#[trigger] (self.start() + k) as u64),
        ensures
            r@.len() == chunk_count(page_offset, data_len),
            forall|k: int|
                0 <= k < r@.len() ==> {
                    let c = #[trigger] r@[k];
                    &&& c.vpn == self.start() + k
                    &&& c.ppn == pte_ppn(page_table.entries()[c.vpn])
                    &&& c.page_offset == (if k == 0 {
                        page_offset
                    } else {
                        0
                    })
                    &&& c.file_offset == data_start + (if k == 0 {
                        0
                    } else {
                        PAGE_SIZE - page_offset + (k - 1) * PAGE_SIZE
                    })
                    &&& c.len == min(
                        data_len - bytes_before(k, page_offset, data_len),
                        PAGE_SIZE - c.page_offset,
                    )
                },
    {
        copy_chunks(self.vpn_range.get_start().0, page_table, data_start, data_len, page_offset)
    }


    /// Maps page `vpn` of the area on first touch, see `map_one`; returns the handle that
    /// the area held for that page before, if any, for the caller to give back.
    pub fn lazy_map_vpn(
        &mut self,
        vpn: VirtPageNum,
        page_table: &mut PageTable,
        allocator: &mut StackFrameAllocator,
    ) -> (r: Option<FrameTracker>)
        requires
            old(allocator)@.wf(),
            old(self).map_type is Framed ==> can_alloc(old(allocator)@, 1),
            rule_ok(old(self).map_type, vpn.0),
            !old(page_table).is_mapped(vpn.0),
            old(self).permission.bits & !0x1ffu16 == 0,
        ensures
            final(allocator)@.wf(),
            final(page_table).root_ppn() == old(page_table).root_ppn(),
            final(page_table).is_mapped(vpn.0),
            mapped_one(
                *old(self),
                *final(self),
                vpn.0,
                old(page_table).entries(),
                final(page_table).entries(),
                old(allocator)@,
                final(allocator)@,
                r,
            ),
    {
        self.map_one(page_table, vpn, allocator)
    }

    /// Maps every page of the area, as `map_one` maps one. It is a fatal error when a page
    /// of a `Framed` area already has a frame, or when no frame is left.
    pub fn inflate_pagetable(&mut self, page_table: &mut PageTable, allocator: &mut StackFrameAllocator)
        requires
            old(self).vpn_range.wf(),
            old(allocator)@.wf(),
            old(self).map_type is Framed ==> can_alloc(
                old(allocator)@,
                (old(self).end() - old(self).start()) as nat,
            ),
            forall|v: u64| old(self).holds(v) ==> rule_ok(old(self).map_type, v),
            forall|v: u64| old(self).holds(v) ==> !#[trigger] old(page_table).is_mapped(v),
            old(self).map_type is Framed ==> forall|v: u64|
                old(self).holds(v) ==> !#[trigger] old(self).frames().contains_key(v),
            old(self).permission.bits & !0x1ffu16 == 0,
        ensures
            final(allocator)@.wf(),
            final(page_table).root_ppn() == old(page_table).root_ppn(),
            inflated(
                *old(self),
                *final(self),
                old(page_table).entries(),
                final(page_table).entries(),
                old(allocator)@,
                final(allocator)@,
            ),
    {
        let start = self.vpn_range.get_start().0;
        let end = self.vpn_range.get_end().0;
        let mut vpn = start;
        while vpn < end
            invariant
                start == old(self).start(),
                end == old(self).end(),
                start <= vpn <= end,
                self.map_type == old(self).map_type,
                self.area_type == old(self).area_type,
                self.permission == old(self).permission,
                self.file == old(self).file,
                self.file_offset == old(self).file_offset,
                self.vpn_range == old(self).vpn_range,
                self.permission.bits & !0x1ffu16 == 0,
                allocator@.wf(),
                page_table.root_ppn() == old(page_table).root_ppn(),
                self.map_type is Framed ==> can_alloc(allocator@, (end - vpn) as nat),
                forall|v: u64| old(self).holds(v) ==> rule_ok(old(self).map_type, v),
                forall|v: u64| vpn <= v < end ==> !#[trigger] page_table.is_mapped(v),
                self.map_type is Framed ==> forall|v: u64|
                    vpn <= v < end ==> !#[trigger] self.frames().contains_key(v),
                forall|v: u64| !old(self).holds(v) ==> #[trigger] page_table.entries().contains_key(v)
                    == old(page_table).entries().contains_key(v) && (old(page_table).entries().contains_key(v)
                    ==> page_table.entries()[v] == old(page_table).entries()[v]),
                forall|v: u64| start <= v < vpn ==> #[trigger] page_table.is_mapped(v),
                !(self.map_type is Framed) ==> {
                    &&& allocator@ == old(allocator)@
                    &&& self.frames() == old(self).frames()
                    &&& forall|v: u64| start <= v < vpn ==> #[trigger] page_table.entries()[v] == area_pte(
                        rule_ppn(old(self).map_type, v),
                        old(self).permission,
                    )
                },
                self.map_type is Framed ==> {
                    &&& forall|v: u64| !old(self).holds(v) ==> #[trigger] self.frames().contains_key(v)
                        == old(self).frames().contains_key(v) && (old(self).frames().contains_key(v)
                        ==> self.frames()[v] == old(self).frames()[v])
                    &&& forall|v: u64| start <= v < vpn ==> {
                        &&& #[trigger] self.frames().contains_key(v)
                        &&& !old(allocator)@.allocated(self.frames()[v].ppn.0)
                        &&& allocator@.allocated(self.frames()[v].ppn.0)
                        &&& allocator@.refs[self.frames()[v].ppn.0] == 1
                        &&& page_table.entries()[v] == area_pte(self.frames()[v].ppn.0, old(self).permission)
                    }
                    &&& forall|p: u64| #[trigger] old(allocator)@.allocated(p) ==> allocator@.allocated(p)
                        && allocator@.refs[p] == old(allocator)@.refs[p]
                    &&& free_frames(allocator@) == free_frames(old(allocator)@) - (vpn - start)
                    &&& forall|v1: u64, v2: u64|
                        #![trigger self.frames()[v1], self.frames()[v2]]
                        start <= v1 < vpn && start <= v2 < vpn && v1 != v2 ==> self.frames()[v1].ppn.0
                            != self.frames()[v2].ppn.0
                },
            decreases end - vpn,
        {
            let ghost a0 = allocator@;
            let ghost f0 = self.frames();
            let ghost e0 = page_table.entries();
            let ghost pt0 = *page_table;
            proof {
                if self.map_type is Framed {
                    crate::frame_allocator::lemma_alloc_fresh(a0);
                    if a0.recycled.len() == 0 {
                        assert(a0.current < a0.end);
                    }
                }
            }
            assert(old(self).holds(vpn));
            assert(!page_table.is_mapped(vpn));
            let displaced = self.map_one(page_table, VirtPageNum(vpn), allocator);
            proof {
                assert forall|v: u64| start <= v < vpn + 1 implies #[trigger] page_table.is_mapped(v) by {
                    if v < vpn {
                        assert(pt0.is_mapped(v));
                        assert(e0[v] == page_table.entries()[v]);
                    }
                }
                assert forall|v: u64| vpn + 1 <= v < end implies !#[trigger] page_table.is_mapped(v) by {
                    assert(!pt0.is_mapped(v));
                    assert(e0.contains_key(v) == page_table.entries().contains_key(v));
                }
                if self.map_type is Framed {
                    let p = a0.alloc_spec().1->0;
                    assert(!a0.allocated(p));
                    assert forall|v: u64| start <= v < vpn implies self.frames()[v] == f0[v] && f0[v].ppn.0
                        != p by {
                        assert(f0.contains_key(v));
                        assert(a0.allocated(f0[v].ppn.0));
                    }
                    assert forall|q: u64| #[trigger] old(allocator)@.allocated(q) implies allocator@.allocated(q)
                        && allocator@.refs[q] == old(allocator)@.refs[q] by {
                        assert(a0.allocated(q));
                        assert(q != p);
                    }
                    assert(self.frames()[vpn].ppn.0 == p);
                    assert forall|v1: u64, v2: u64|
                        start <= v1 < vpn + 1 && start <= v2 < vpn + 1 && v1 != v2 implies #[trigger] self.frames()[v1].ppn.0
                            != #[trigger] self.frames()[v2].ppn.0 by {
                        if v1 < vpn && v2 < vpn {
                            assert(self.frames()[v1] == f0[v1]);
                            assert(self.frames()[v2] == f0[v2]);
                        } else if v1 < vpn {
                            assert(self.frames()[v1] == f0[v1]);
                        } else {
                            assert(self.frames()[v2] == f0[v2]);
                        }
                    }
                }
            }
            vpn = vpn + 1;
        }
        proof {
            assert forall|v: u64| #[trigger] old(self).holds(v) implies page_table.entries().contains_key(v)
                && pte_valid(page_table.entries()[v]) by {
                assert(page_table.is_mapped(v));
            }
            if self.map_type is Framed {
                assert forall|v: u64| #[trigger] old(self).holds(v) implies {
                    &&& self.frames().contains_key(v)
                    &&& !old(allocator)@.allocated(self.frames()[v].ppn.0)
                    &&& allocator@.allocated(self.frames()[v].ppn.0)
                    &&& allocator@.refs[self.frames()[v].ppn.0] == 1
                    &&& page_table.entries()[v] == area_pte(self.frames()[v].ppn.0, old(self).permission)
                } by {
                    assert(start <= v < vpn);
                }
            } else {
                assert forall|v: u64| #[trigger] old(self).holds(v) implies page_table.entries()[v] == area_pte(
                    rule_ppn(old(self).map_type, v),
                    old(self).permission,
                ) by {
                    assert(start <= v < vpn);
                }
            }
        }
    }

    /// What writing the area back to its file writes (see `write_back_plan`): for each of
    /// its first `n` pages that the entries `pt` map by a valid entry, in order, the frame
    /// of the page and the file offset it goes to.
    pub open spec fn write_back_list(&self, pt: Map<u64, u64>, n: int) -> Seq<(u64, int)>
        decreases n,
    {
        if n <= 0 {
            Seq::empty()
        } else {
            let v = (self.start() + n - 1) as u64;
            let before = self.write_back_list(pt, n - 1);
            if pt.contains_key(v) && pte_valid(pt[v]) {
                before.push((pte_ppn(pt[v]), (n - 1) * PAGE_SIZE + self.file_offset))
            } else {
                before
            }
        }
    }

    /// What writing the area back to its file does, with the page table `page_table`;
    /// `file_writable` says whether its file can be written: nothing for an area without
    /// write access or without a file, or whose file cannot be written; else, for each page
    /// mapped by a valid entry, in order, the frame whose bytes are written and the file
    /// offset they go to (the page's place in the area, in bytes, past the area's file
    /// offset). Seeking and writing are left to the caller.
    pub fn write_back_plan(&self, page_table: &PageTable, file_writable: bool) -> (r: Vec<(u64, usize)>)
        requires
            self.vpn_range.wf(),
            (self.end() - self.start()) * PAGE_SIZE + self.file_offset <= usize::MAX,
        ensures
            (self.permission.bits & MapPermission::W == 0 || self.file is None || !file_writable) ==> r@.len() == 0,
            !(self.permission.bits & MapPermission::W == 0 || self.file is None || !file_writable) ==> {
                &&& r@.len() == self.write_back_list(page_table.entries(), self.end() - self.start()).len()
                &&& forall|i: int|
                    0 <= i < r@.len() ==> (#[trigger] r@[i]).0 == self.write_back_list(
                        page_table.entries(),
                        self.end() - self.start(),
                    )[i].0 && r@[i].1 == self.write_back_list(page_table.entries(), self.end() - self.start())[i].1
            },
    {
        let mut plan: Vec<(u64, usize)> = Vec::new();
        if self.permission.bits & MapPermission::W == 0 || self.file.is_none() || !file_writable {
            return plan;
        }
        let start = self.vpn_range.get_start().0;
        let end = self.vpn_range.get_end().0;
        let mut vpn = start;
        while vpn < end
            invariant
                start == self.start(),
                end == self.end(),
                start <= vpn <= end,
                (end - start) * PAGE_SIZE + self.file_offset <= usize::MAX,
                plan@.len() == self.write_back_list(page_table.entries(), vpn - start).len(),
                forall|i: int|
                    0 <= i < plan@.len() ==> (#[trigger] plan@[i]).0 == self.write_back_list(
                        page_table.entries(),
                        vpn - start,
                    )[i].0 && plan@[i].1 == self.write_back_list(page_table.entries(), vpn - start)[i].1,
            decreases end - vpn,
        {
            let ghost before = plan@;
            match page_table.translate(VirtPageNum(vpn)) {
                Some(e) => {
                    if e.is_valid() {
                        proof {
                            assert((vpn - start) * PAGE_SIZE <= (end - start) * PAGE_SIZE) by (nonlinear_arith)
                                requires
                                    vpn - start <= end - start,
                            ;
                        }
                        let offset = ((vpn - start) as usize) * (PAGE_SIZE as usize) + self.file_offset;
                        plan.push((e.ppn().0, offset));
                    }
                },
                None => {},
            }
            proof {
                let n = vpn - start + 1;
                assert((self.start() + n - 1) as u64 == vpn);
            }
            vpn = vpn + 1;
        }
        plan
    }

    /// Unmaps every page of the area; the frames it owns stay with it. It is a fatal error
    /// when a page is not mapped.
    pub fn erase_pagetable(&mut self, page_table: &mut PageTable)
        requires
            old(self).vpn_range.wf(),
            forall|v: u64| old(self).holds(v) ==> #[trigger] old(page_table).is_mapped(v),
        ensures
            *final(self) == *old(self),
            final(page_table).root_ppn() == old(page_table).root_ppn(),
            erased(*old(self), old(page_table).entries(), final(page_table).entries()),
    {
        let start = self.vpn_range.get_start().0;
        let end = self.vpn_range.get_end().0;
        let mut vpn = start;
        while vpn < end
            invariant
                start == old(self).start(),
                end == old(self).end(),
                start <= vpn <= end,
                forall|v: u64| vpn <= v < end ==> #[trigger] page_table.is_mapped(v),
                page_table.root_ppn() == old(page_table).root_ppn(),
                forall|v: u64| #[trigger] page_table.entries().contains_key(v) == old(page_table).entries().contains_key(v),
                forall|v: u64| start <= v < vpn ==> #[trigger] page_table.entries()[v] == 0,
                forall|v: u64| !(start <= v < vpn) && old(page_table).entries().contains_key(v)
                    ==> #[trigger] page_table.entries()[v] == old(page_table).entries()[v],
            decreases end - vpn,
        {
            let ghost e0 = page_table.entries();
            let ghost pt0 = *page_table;
            page_table.unmap(VirtPageNum(vpn));
            proof {
                assert forall|v: u64| vpn + 1 <= v < end implies #[trigger] page_table.is_mapped(v) by {
                    assert(pt0.is_mapped(v));
                    assert(e0.contains_key(v) && e0[v] == page_table.entries()[v]);
                }
                assert forall|v: u64| #[trigger] page_table.entries().contains_key(v)
                    == old(page_table).entries().contains_key(v) by {
                    assert(e0.contains_key(v) == page_table.entries().contains_key(v));
                }
            }
            vpn = vpn + 1;
        }
    }
}

/// The frame that a `Linear` area maps page `vpn` to.
fn linear_ppn(vpn: u64, off: i64) -> (r: u64)
    requires
        vpn < 0x800_0000,
        i64::MIN <= vpn + off <= i64::MAX,
    ensures
        r == (vpn + off) as u64,
{
    let s = (vpn as i64) + off;
    s as u64
}

/// Whether `c` is copy `k` of `data_len` bytes of a file from offset `data_start` into the
/// frames of the pages from `first` on (entries `pt`), from byte `page_offset` of the first
/// page on: it fills page `first + k` from its offset (`page_offset` for the first, 0 after),
/// as far as the bytes left go.
pub open spec fn copied_chunk(
    c: CopyChunk,
    k: int,
    first: u64,
    pt: Map<u64, u64>,
    data_start: u64,
    data_len: u64,
    page_offset: u64,
) -> bool {
    &&& c.vpn == first + k
    &&& c.ppn == pte_ppn(pt[c.vpn])
    &&& c.page_offset == (if k == 0 {
        page_offset
    } else {
        0
    })
    &&& c.file_offset == data_start + (if k == 0 {
        0
    } else {
        PAGE_SIZE - page_offset + (k - 1) * PAGE_SIZE
    })
    &&& c.len == min(data_len - bytes_before(k, page_offset, data_len), PAGE_SIZE - c.page_offset)
}

/// The copies that write `data_len` bytes of a file, from offset `data_start`, into the
/// frames of the pages from `first` on, from byte `page_offset` of the first page on, page
/// after page: each fills its page from its offset, as far as the bytes left go.
pub fn copy_chunks(
    first: u64,
    page_table: &PageTable,
    data_start: u64,
    data_len: u64,
    page_offset: u64,
) -> (r: Vec<CopyChunk>)
    requires
        page_offset < PAGE_SIZE,
        first + chunk_count(page_offset, data_len) <= u64::MAX,
        data_start + data_len + PAGE_SIZE <= u64::MAX,
        forall|k: int| 0 <= k < chunk_count(page_offset, data_len)
            ==> page_table.entries().contains_key(#[trigger] (first + k) as u64),
    ensures
        forall|k: int|
            0 <= k < r@.len() ==> copied_chunk(
                #[trigger] r@[k],
                k,
                first,
                page_table.entries(),
                data_start,
                data_len,
                page_offset,
            ),
        r@.len() == chunk_count(page_offset, data_len),
        forall|k: int|
            0 <= k < r@.len() ==> {
                let c = #[trigger] r@[k];
                &&& c.vpn == first + k
                &&& c.ppn == pte_ppn(page_table.entries()[c.vpn])
                &&& c.page_offset == (if k == 0 {
                    page_offset
                } else {
                    0
                })
                &&& c.file_offset == data_start + (if k == 0 {
                    0
                } else {
                    PAGE_SIZE - page_offset + (k - 1) * PAGE_SIZE
                })
                &&& c.len == min(
                    data_len - bytes_before(k, page_offset, data_len),
                    PAGE_SIZE - c.page_offset,
                )
            },
{
    let mut chunks: Vec<CopyChunk> = Vec::new();
    let mut offset: u64 = 0;
    let mut current_vpn = first;
    let mut po = page_offset;
    let mut remaining = data_len;
    let ghost n = chunk_count(page_offset, data_len);
    loop
        invariant_except_break
            chunks@.len() < n,
            current_vpn == first + chunks@.len(),
            remaining == data_len - bytes_before(chunks@.len() as int, page_offset, data_len),
            remaining > 0 || chunks@.len() == 0,
        invariant
            n == chunk_count(page_offset, data_len),
            page_offset < PAGE_SIZE,
            data_start + data_len + PAGE_SIZE <= u64::MAX,
            first + n <= u64::MAX,
            forall|k: int| 0 <= k < n ==> page_table.entries().contains_key(#[trigger] (first + k) as u64),
            0 <= chunks@.len() <= n,
            chunks@.len() == 0 ==> offset == 0 && po == page_offset && remaining == data_len,
            chunks@.len() > 0 ==> po == 0 && offset == PAGE_SIZE - page_offset + (chunks@.len() - 1) * PAGE_SIZE,
            forall|k: int|
                0 <= k < chunks@.len() ==> {
                    let c = #[trigger] chunks@[k];
                    &&& c.vpn == first + k
                    &&& c.ppn == pte_ppn(page_table.entries()[c.vpn])
                    &&& c.page_offset == (if k == 0 {
                        page_offset
                    } else {
                        0
                    })
                    &&& c.file_offset == data_start + (if k == 0 {
                        0
                    } else {
                        PAGE_SIZE - page_offset + (k - 1) * PAGE_SIZE
                    })
                    &&& c.len == min(
                        data_len - bytes_before(k, page_offset, data_len),
                        PAGE_SIZE - c.page_offset,
                    )
                },
        ensures
            chunks@.len() == n,
            forall|k: int|
                0 <= k < chunks@.len() ==> {
                    let c = #[trigger] chunks@[k];
                    &&& c.vpn == first + k
                    &&& c.ppn == pte_ppn(page_table.entries()[c.vpn])
                    &&& c.page_offset == (if k == 0 {
                        page_offset
                    } else {
                        0
                    })
                    &&& c.file_offset == data_start + (if k == 0 {
                        0
                    } else {
                        PAGE_SIZE - page_offset + (k - 1) * PAGE_SIZE
                    })
                    &&& c.len == min(
                        data_len - bytes_before(k, page_offset, data_len),
                        PAGE_SIZE - c.page_offset,
                    )
                },
        decreases n - chunks@.len(),
    {
        proof {
            lemma_chunk_count(page_offset, data_len, chunks@.len() as int);
        }
        let len = if remaining < PAGE_SIZE - po {
            remaining
        } else {
            PAGE_SIZE - po
        };
        proof {
            assert(chunks@.len() > 0 ==> data_start + offset <= data_start + data_len) by (nonlinear_arith)
                requires
                    chunks@.len() > 0 ==> remaining == data_len - bytes_before(chunks@.len() as int, page_offset, data_len),
                    chunks@.len() > 0 ==> offset == PAGE_SIZE - page_offset + (chunks@.len() - 1) * PAGE_SIZE,
                    remaining >= 0,
                    data_len as int >= 0,
                    bytes_before(chunks@.len() as int, page_offset, data_len) == (if chunks@.len() == 0 {
                        0
                    } else {
                        min(data_len as int, PAGE_SIZE - page_offset) + (chunks@.len() - 1) * PAGE_SIZE
                    }),
                    chunks@.len() > 0 ==> data_len > PAGE_SIZE - page_offset,
            ;
        }
        let e = page_table.translate(VirtPageNum(current_vpn)).unwrap();
        chunks.push(
            CopyChunk {
                vpn: current_vpn,
                ppn: e.ppn().0,
                page_offset: po,
                file_offset: data_start + offset,
                len,
            },
        );
        offset = offset + (PAGE_SIZE - po);
        po = 0;
        remaining = remaining - len;
        if remaining == 0 {
            break;
        }
        current_vpn = current_vpn + 1;
    }
    chunks
}

} // verus!
