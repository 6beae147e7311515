//! The address space of a process: its page table and the areas mapped in it.
use vstd::prelude::*;
use std::collections::BTreeMap;
use crate::address::{canonical_va, PhysAddr, PhysPageNum, VirtAddr, VirtPageNum, PAGE_SIZE};
use crate::config::{MMAP_BASE, SHM_BASE, TRAMPOLINE, USER_HEAP_SIZE};
use crate::flags::{MapPermission, MapType, MmapFlags, MmapProts};
use crate::frame_allocator::{alloc_frame, enquire_refcount, FrameAllocatorModel, FrameTracker, StackFrameAllocator};
use crate::page_table::{can_alloc, pte_bits, pte_cow, pte_flags, pte_ppn, pte_valid, PTEFlags, PageTable, PageTableEntry};
use crate::shared_memory::{shm_get_address_and_size, shm_get_nattch, SharedMemoryManager, SharedMemoryTracker};
use crate::task::trap_context_position;
use crate::vm_area::{erased, fresh, inflated, mapped_one, rule_ok, VmArea, VmAreaType};
use crate::vma::{frames_in, pushed_page, MmapManager, MmapPage, PageFill};

verus! {

/// The rights of the heap, the stack and the lazily mapped user areas: read, write, user.
pub const USER_RW: u16 = 22;

/// The rights of trap contexts: read and write.
pub const KERNEL_RW: u16 = 6;

/// Whether an area can be mapped: its range is well formed and its rights are page table
/// flags.
pub open spec fn area_ok(a: VmArea) -> bool {
    a.vpn_range.wf() && a.permission.bits & !0x1ffu16 == 0
}

/// Whether `a` covers the pages `[lo, hi)`.
pub open spec fn covers(a: VmArea, lo: int, hi: int) -> bool {
    a.start() <= lo && hi <= a.end()
}

/// Whether `i` is the first index of an area that starts at page `s`.
pub open spec fn first_starting_at(areas: Seq<VmArea>, s: u64, i: int) -> bool {
    &&& 0 <= i < areas.len()
    &&& areas[i].start() == s
    &&& forall|j: int| 0 <= j < i ==> (#[trigger] areas[j]).start() != s
}

/// Whether `i` is the first index of an area that holds page `vpn`.
pub open spec fn first_holding(areas: Seq<VmArea>, vpn: u64, i: int) -> bool {
    &&& 0 <= i < areas.len()
    &&& areas[i].holds(vpn)
    &&& forall|j: int| 0 <= j < i ==> !(#[trigger] areas[j]).holds(vpn)
}

/// Area `after` is `before` with handle `t` put at page `vpn`, and `r` is the handle that
/// `before` held there, if any.
pub open spec fn frame_put(before: VmArea, after: VmArea, vpn: u64, t: FrameTracker, r: Option<FrameTracker>) -> bool {
    &&& after.vpn_range == before.vpn_range
    &&& after.map_type == before.map_type
    &&& after.area_type == before.area_type
    &&& after.permission == before.permission
    &&& after.file == before.file
    &&& after.file_offset == before.file_offset
    &&& after.frames() == before.frames().insert(vpn, t)
    &&& r == (if before.frames().contains_key(vpn) {
        Some(before.frames()[vpn])
    } else {
        None
    })
}

/// The entry of a shared copy-on-write page once it is the only user of its frame: the
/// copy-on-write bit is cleared and write access is given back.
pub open spec fn made_writable(e: u64) -> u64 {
    let e1 = e & !0x100u64;
    ((e1 & !0x3ffu64) | ((pte_flags(e1) | 4u16) as u64)) as u64
}

/// Whether page `vpn` lies in the `mmap` region of `ms`, its bounds rounded down to pages.
pub open spec fn in_mmap(ms: MemorySet, vpn: u64) -> bool {
    ms.mmap_manager.mmap_start.0 / PAGE_SIZE <= vpn < ms.mmap_manager.mmap_top.0 / PAGE_SIZE
}

/// Whether a copy-on-write fault at page `vpn` finds where to keep the new frame without a fatal error: in an area mapped as a whole that holds the page; else in the
/// `mmap` region (whose bounds must then be page aligned as far as they are looked at), the
/// stack or the heap.
pub open spec fn cow_target_ok(ms: MemorySet, vpn: u64) -> bool {
    ||| exists|i: int| 0 <= i < ms.vm_areas@.len() && (#[trigger] ms.vm_areas@[i]).holds(vpn)
    ||| {
        &&& ms.mmap_manager.mmap_start.0 % PAGE_SIZE == 0
        &&& vpn >= ms.mmap_manager.mmap_start.0 / PAGE_SIZE ==> ms.mmap_manager.mmap_top.0 % PAGE_SIZE == 0
        &&& in_mmap(ms, vpn) || ms.user_stack_areas.holds(vpn) || ms.heap_areas.holds(vpn)
    }
}

/// Space `after` is `before` with handle `t` kept at page `vpn` by the first of these that
/// holds the page: an area mapped as a whole, the `mmap` region, the stack, the heap; and
/// `r` is the handle kept there before, if any.
pub open spec fn cow_put(before: MemorySet, after: MemorySet, vpn: u64, t: FrameTracker, r: Option<FrameTracker>) -> bool {
    &&& after.shm_areas == before.shm_areas
    &&& after.shm_trackers == before.shm_trackers
    &&& after.shm_top == before.shm_top
    &&& after.brk_start == before.brk_start
    &&& after.brk == before.brk
    &&& after.user_stack_start == before.user_stack_start
    &&& after.user_stack_end == before.user_stack_end
    &&& if exists|i: int| first_holding(before.vm_areas@, vpn, i) {
        let i = choose|i: int| first_holding(before.vm_areas@, vpn, i);
        &&& after.vm_areas@.len() == before.vm_areas@.len()
        &&& forall|j: int|
            0 <= j < before.vm_areas@.len() && j != i ==> after.vm_areas@[j] == #[trigger] before.vm_areas@[j]
        &&& frame_put(before.vm_areas@[i], after.vm_areas@[i], vpn, t, r)
        &&& after.mmap_manager == before.mmap_manager
        &&& after.user_stack_areas == before.user_stack_areas
        &&& after.heap_areas == before.heap_areas
    } else if in_mmap(before, vpn) {
        &&& after.vm_areas == before.vm_areas
        &&& after.mmap_manager.mmap_start == before.mmap_manager.mmap_start
        &&& after.mmap_manager.mmap_top == before.mmap_manager.mmap_top
        &&& after.mmap_manager.pages() == before.mmap_manager.pages()
        &&& after.mmap_manager.frames() == before.mmap_manager.frames().insert(vpn, t)
        &&& r == (if before.mmap_manager.frames().contains_key(vpn) {
            Some(before.mmap_manager.frames()[vpn])
        } else {
            None
        })
        &&& after.user_stack_areas == before.user_stack_areas
        &&& after.heap_areas == before.heap_areas
    } else if before.user_stack_areas.holds(vpn) {
        &&& after.vm_areas == before.vm_areas
        &&& after.mmap_manager == before.mmap_manager
        &&& frame_put(before.user_stack_areas, after.user_stack_areas, vpn, t, r)
        &&& after.heap_areas == before.heap_areas
    } else {
        &&& after.vm_areas == before.vm_areas
        &&& after.mmap_manager == before.mmap_manager
        &&& after.user_stack_areas == before.user_stack_areas
        &&& frame_put(before.heap_areas, after.heap_areas, vpn, t, r)
    }
}

/// Page `k` of a shared memory segment attached at `start`: the page of the canonical form
/// of `start + k * PAGE_SIZE`.
pub open spec fn shm_page(start: u64, k: int) -> u64 {
    canonical_va((start + k * PAGE_SIZE) as u64) / PAGE_SIZE
}

/// The number of pages of a segment of `size` bytes.
pub open spec fn shm_count(size: u64) -> nat {
    ((size + PAGE_SIZE - 1) / (PAGE_SIZE as int)) as nat
}

/// The pages of a segment of `size` bytes attached at `start` are distinct.
pub open spec fn shm_pages_distinct(start: u64, size: u64) -> bool {
    forall|k1: int, k2: int|
        0 <= k1 < k2 < shm_count(size) ==> #[trigger] shm_page(start, k1) != #[trigger] shm_page(start, k2)
}

/// The flags with which shared memory is mapped: valid, readable, writable, user.
pub const SHM_FLAGS: u16 = 23;

/// The entries `pt0` once the first `n` pages of a segment attached at `start` are mapped
/// to the frames from physical address `pa` on.
pub open spec fn shm_mapped(pt0: Map<u64, u64>, start: u64, pa: u64, n: nat) -> Map<u64, u64>
    decreases n,
{
    if n == 0 {
        pt0
    } else {
        shm_mapped(pt0, start, pa, (n - 1) as nat).insert(
            shm_page(start, n - 1),
            pte_bits((((pa + (n - 1) * PAGE_SIZE) % 0x100_0000_0000_0000) / (PAGE_SIZE as int)) as u64, SHM_FLAGS),
        )
    }
}

/// The entries `pt0` once the first `n` pages of a segment attached at `start` are unmapped.
pub open spec fn shm_unmapped(pt0: Map<u64, u64>, start: u64, n: nat) -> Map<u64, u64>
    decreases n,
{
    if n == 0 {
        pt0
    } else {
        shm_unmapped(pt0, start, (n - 1) as nat).insert(shm_page(start, n - 1), 0)
    }
}

/// Mapping or unmapping the first `n` pages of a segment leaves every other page as it was.
proof fn lemma_shm_other_pages(pt0: Map<u64, u64>, start: u64, pa: u64, n: nat, v: u64)
    requires
        forall|j: int| 0 <= j < n ==> shm_page(start, j) != v,
    ensures
        shm_mapped(pt0, start, pa, n).contains_key(v) == pt0.contains_key(v),
        shm_mapped(pt0, start, pa, n).contains_key(v) ==> shm_mapped(pt0, start, pa, n)[v] == pt0[v],
        shm_unmapped(pt0, start, n).contains_key(v) == pt0.contains_key(v),
        shm_unmapped(pt0, start, n).contains_key(v) ==> shm_unmapped(pt0, start, n)[v] == pt0[v],
    decreases n,
{
    if n > 0 {
        lemma_shm_other_pages(pt0, start, pa, (n - 1) as nat, v);
    }
}

/// An aligned address stays aligned in its canonical form.
proof fn lemma_canonical_aligned(v: u64)
    requires
        v % PAGE_SIZE == 0,
    ensures
        canonical_va(v) % PAGE_SIZE == 0,
{
    assert(v % 4096 == 0 ==> (v | !0x7f_ffff_ffffu64) % 4096 == 0) by (bit_vector);
}

/// The areas that do not start at page `s`.
pub open spec fn not_starting_at(s: u64) -> spec_fn(VmArea) -> bool {
    |a: VmArea| a.start() != s
}

/// What resolving a copy-on-write fault at page `vpn`, mapped to frame `former`, does (see
/// `MemorySet::cow_alloc`): the space goes from `before` to `after`, the allocator from `a0`
/// to `a1`, and `r` is the handle handed back.
pub open spec fn cow_resolved(
    before: MemorySet,
    after: MemorySet,
    vpn: u64,
    former: u64,
    a0: FrameAllocatorModel,
    a1: FrameAllocatorModel,
    r: Option<FrameTracker>,
) -> bool {
    &&& after.page_table.root_ppn() == before.page_table.root_ppn()
    &&& a0.refs[former] == 1 ==> {
        &&& a1 == a0
        &&& r is None
        &&& after.entries() == before.entries().insert(vpn, made_writable(before.entries()[vpn]))
        &&& after == (MemorySet { page_table: after.page_table, ..before })
    }
    &&& a0.refs[former] != 1 ==> {
        let p = a0.alloc_spec().1->0;
        &&& a0.alloc_spec().1 is Some
        &&& a1 == a0.alloc_spec().0.add_ref_spec(p)
        &&& after.entries() == before.entries().insert(
            vpn,
            pte_bits(p, ((pte_flags(before.entries()[vpn]) | 4u16) & !0x100u16) as u16),
        )
        &&& cow_put(before, after, vpn, FrameTracker { ppn: PhysPageNum(p) }, r)
    }
}

/// Resolving a copy-on-write fault on frame `former`, shared by `c > 1` pages, and then
/// releasing the handle handed back, when that handle is on `former`, leaves `former` with
/// `c - 1` references; the page's new frame, one that was not handed out before, has one.
pub proof fn law_cow_release(
    before: MemorySet,
    after: MemorySet,
    vpn: u64,
    former: u64,
    a0: FrameAllocatorModel,
    a1: FrameAllocatorModel,
    r: Option<FrameTracker>,
)
    requires
        a0.wf(),
        a0.allocated(former),
        a0.refs[former] > 1,
        cow_resolved(before, after, vpn, former, a0, a1, r),
        r == Some(FrameTracker { ppn: PhysPageNum(former) }),
    ensures
        a1.dealloc_spec(former).refs[former] == a0.refs[former] - 1,
        !a0.allocated(a0.alloc_spec().1->0),
        a1.dealloc_spec(former).refs[a0.alloc_spec().1->0] == 1,
{
    crate::frame_allocator::lemma_alloc_fresh(a0);
}

/// What attaching segment `key` at `start` (see `MemorySet::attach_shm`) did when it
/// succeeded: the space went from `s0` to `s1`, the manager from `m0` to `m1`, and `r` is the
/// attach recorded under `start` before.
pub open spec fn shm_attached(
    s0: MemorySet,
    s1: MemorySet,
    m0: SharedMemoryManager,
    m1: SharedMemoryManager,
    key: u64,
    start: u64,
    r: Option<SharedMemoryTracker>,
) -> bool {
    let size = m0.areas()[key].shmid_ds.shm_size as u64;
    &&& exists|pa: u64|
        pa % PAGE_SIZE == 0 && s1.entries() == #[trigger] shm_mapped(
            s0.entries(),
            start,
            pa,
            shm_count(size),
        )
    &&& s1.page_table.root_ppn() == s0.page_table.root_ppn()
    &&& s1.shm_top == (if s0.shm_top >= start + size {
        s0.shm_top
    } else {
        (start + size) as u64
    })
    &&& s1.shm_trackers@ == s0.shm_trackers@.insert(
        start,
        SharedMemoryTracker { key },
    )
    &&& r == (if s0.shm_trackers@.contains_key(start) {
        Some(s0.shm_trackers@[start])
    } else {
        None
    })
    &&& s1.shm_areas@.len() == s0.shm_areas@.len() + 1
    &&& s1.shm_areas@.drop_last() == s0.shm_areas@
    &&& fresh(
        s1.shm_areas@.last(),
        start,
        (start + size) as u64,
        MapType::Framed,
        VmAreaType::Shared,
        MapPermission { bits: KERNEL_RW },
        None,
        0,
    )
    &&& s1.vm_areas == s0.vm_areas
    &&& s1.mmap_manager == s0.mmap_manager
    &&& s1.heap_areas == s0.heap_areas
    &&& s1.user_stack_areas == s0.user_stack_areas
    &&& s1.brk_start == s0.brk_start
    &&& s1.brk == s0.brk
    &&& s1.user_stack_start == s0.user_stack_start
    &&& s1.user_stack_end == s0.user_stack_end
    &&& m1.areas().dom() == m0.areas().dom()
    &&& m1.areas()[key].shmid_ds.shm_nattch == m0.areas()[key].shmid_ds.shm_nattch
        + 1
}

/// What detaching the segment attached at `start` (see `MemorySet::detach_shm`) did: the
/// space went from `s0` to `s1`, the manager from `m0` to `m1`, and `r` is the number of
/// attaches left.
pub open spec fn shm_detached(s0: MemorySet, s1: MemorySet, m0: SharedMemoryManager, m1: SharedMemoryManager, start: u64, r: usize) -> bool {
    let key = s0.shm_trackers@[start].key;
    let size = m0.areas()[key].shmid_ds.shm_size as u64;
    &&& r == m0.areas()[key].shmid_ds.shm_nattch - 1
    &&& m1.areas().dom() == m0.areas().dom()
    &&& m1.areas()[key].shmid_ds.shm_nattch == m0.areas()[key].shmid_ds.shm_nattch - 1
    &&& s1.entries() == shm_unmapped(s0.entries(), start, shm_count(size))
    &&& s1.shm_trackers@ == s0.shm_trackers@.remove(start)
    &&& s1.shm_areas@ == s0.shm_areas@.filter(not_starting_at(start / PAGE_SIZE))
}

/// Unmapping the first `n` pages of a segment leaves an empty entry at each of them.
proof fn lemma_shm_unmapped_empty(pt0: Map<u64, u64>, start: u64, n: nat, k: int)
    requires
        0 <= k < n,
    ensures
        shm_unmapped(pt0, start, n).contains_key(shm_page(start, k)),
        shm_unmapped(pt0, start, n)[shm_page(start, k)] == 0,
    decreases n,
{
    if k < n - 1 {
        lemma_shm_unmapped_empty(pt0, start, (n - 1) as nat, k);
    }
}

/// Attaching segment `key` at `start`, where nothing was attached, and then detaching what
/// is attached there gives back the count of attaches the segment had before the attach,
/// leaves the attaches recorded as they were, leaves no `Shared` area starting at the first
/// page, and leaves every page of the segment with an empty entry.
pub proof fn law_attach_then_detach(
    s0: MemorySet,
    s1: MemorySet,
    s2: MemorySet,
    m0: SharedMemoryManager,
    m1: SharedMemoryManager,
    m2: SharedMemoryManager,
    key: u64,
    start: u64,
    r1: Option<SharedMemoryTracker>,
    r2: usize,
)
    requires
        !s0.shm_trackers@.contains_key(start),
        shm_attached(s0, s1, m0, m1, key, start, r1),
        shm_detached(s1, s2, m1, m2, start, r2),
    ensures
        r1 is None,
        r2 == m0.areas()[key].shmid_ds.shm_nattch,
        s2.shm_trackers@ == s0.shm_trackers@,
        forall|i: int| 0 <= i < s2.shm_areas@.len() ==> (#[trigger] s2.shm_areas@[i]).start() != start / PAGE_SIZE,
        forall|k: int|
            0 <= k < shm_count(m1.areas()[key].shmid_ds.shm_size as u64) ==> s2.entries()[#[trigger] shm_page(
                start,
                k,
            )] == 0,
{
    assert(s1.shm_trackers@[start].key == key);
    assert(s2.shm_trackers@ =~= s0.shm_trackers@);
    assert forall|i: int| 0 <= i < s2.shm_areas@.len() implies (#[trigger] s2.shm_areas@[i]).start() != start / PAGE_SIZE by {
        s1.shm_areas@.lemma_filter_pred(not_starting_at(start / PAGE_SIZE), i);
    }
    assert forall|k: int| 0 <= k < shm_count(m1.areas()[key].shmid_ds.shm_size as u64) implies s2.entries()[#[trigger] shm_page(start, k)] == 0 by {
        lemma_shm_unmapped_empty(s1.entries(), start, shm_count(m1.areas()[key].shmid_ds.shm_size as u64), k);
    }
}

/// What mapping page `vpn` of the heap on its first touch does (see
/// `MemorySet::lazy_alloc_heap`).
pub open spec fn heap_mapped(
    before: MemorySet,
    after: MemorySet,
    vpn: u64,
    a0: FrameAllocatorModel,
    a1: FrameAllocatorModel,
    r: Option<FrameTracker>,
) -> bool {
    &&& after.page_table.root_ppn() == before.page_table.root_ppn()
    &&& after.page_table.is_mapped(vpn)
    &&& after == (MemorySet { heap_areas: after.heap_areas, page_table: after.page_table, ..before })
    &&& mapped_one(before.heap_areas, after.heap_areas, vpn, before.entries(), after.entries(), a0, a1, r)
}

/// What mapping page `vpn` of the user stack on its first touch does (see
/// `MemorySet::lazy_alloc_stack`).
pub open spec fn stack_mapped(
    before: MemorySet,
    after: MemorySet,
    vpn: u64,
    a0: FrameAllocatorModel,
    a1: FrameAllocatorModel,
    r: Option<FrameTracker>,
) -> bool {
    &&& after.page_table.root_ppn() == before.page_table.root_ppn()
    &&& after.page_table.is_mapped(vpn)
    &&& after == (MemorySet { user_stack_areas: after.user_stack_areas, page_table: after.page_table, ..before })
    &&& mapped_one(before.user_stack_areas, after.user_stack_areas, vpn, before.entries(), after.entries(), a0, a1, r)
}

/// What mapping page `vpn` of the `mmap` region on its first touch does (see
/// `MemorySet::lazy_mmap`), with `r` the fill and the handle handed back.
pub open spec fn mmap_filled(
    before: MemorySet,
    after: MemorySet,
    vpn: u64,
    a0: FrameAllocatorModel,
    a1: FrameAllocatorModel,
    r: (PageFill, Option<FrameTracker>),
) -> bool {
    let p = a0.alloc_spec().1->0;
    let page = before.mmap_manager.pages()[vpn];
    &&& after.page_table.root_ppn() == before.page_table.root_ppn()
    &&& a0.alloc_spec().1 is Some
    &&& a1 == a0.alloc_spec().0.add_ref_spec(p)
    &&& after.entries() == before.entries().insert(
        vpn,
        pte_bits(p, ((((page.prot.bits << 1u64) & 0xfu64) as u16 | 16u16) | 1u16) as u16),
    )
    &&& after.mmap_manager.frames() == before.mmap_manager.frames().insert(vpn, FrameTracker { ppn: PhysPageNum(p) })
    &&& r.1 == (if before.mmap_manager.frames().contains_key(vpn) {
        Some(before.mmap_manager.frames()[vpn])
    } else {
        None
    })
    &&& after.mmap_manager.pages() == before.mmap_manager.pages().insert(vpn, MmapPage { valid: true, ..page })
    &&& r.0 == (if page.anonymous() {
        PageFill::Zero
    } else {
        PageFill::File { file: page.file->0, offset: page.offset }
    })
    &&& after.mmap_manager.mmap_start == before.mmap_manager.mmap_start
    &&& after.mmap_manager.mmap_top == before.mmap_manager.mmap_top
    &&& after == (MemorySet { page_table: after.page_table, mmap_manager: after.mmap_manager, ..before })
}

/// Where `MemorySet::mmap` places a mapping asked for at `addr`: at `addr` (in its
/// canonical form) for a fixed mapping, else at the top of the `mmap` region when `addr` is
/// 0, else at 0.
pub open spec fn mmap_start(ms: MemorySet, addr: u64, flags: MmapFlags) -> u64 {
    if flags.bits & MmapFlags::MAP_FIXED == MmapFlags::MAP_FIXED {
        canonical_va(addr)
    } else if addr == 0 {
        ms.mmap_manager.mmap_top.0
    } else {
        0
    }
}

/// Whether address `va` lies in the user stack, its bounds taken in canonical form.
pub open spec fn in_stack(ms: MemorySet, va: u64) -> bool {
    canonical_va(ms.user_stack_start) <= va < canonical_va(ms.user_stack_end)
}

/// Whether address `va` lies in the heap (its end included), its bounds taken in
/// canonical form.
pub open spec fn in_heap(ms: MemorySet, va: u64) -> bool {
    canonical_va(ms.brk_start) <= va <= canonical_va((ms.brk_start + USER_HEAP_SIZE) as u64)
}

/// Whether address `va` lies in the `mmap` region.
pub open spec fn in_mmap_region(ms: MemorySet, va: u64) -> bool {
    ms.mmap_manager.mmap_start.0 <= va < ms.mmap_manager.mmap_top.0
}

/// The flag values that the address space uses: within the nine permission bits, and with
/// the valid bit added.
pub(crate) proof fn lemma_flag_consts()
    ensures
        22u16 & !0x1ffu16 == 0,
        6u16 & !0x1ffu16 == 0,
        30u16 & !0x1ffu16 == 0,
        (2u16 | 8u16) | 1u16 == 11u16,
        (2u16 | 8u16 | 16u16) | 1u16 == 27u16,
        (1u16 | 16u16 | 4u16 | 2u16) | 1u16 == 23u16,
{
    assert(22u16 & !0x1ffu16 == 0 && 6u16 & !0x1ffu16 == 0 && 30u16 & !0x1ffu16 == 0 && (2u16 | 8u16) | 1u16 == 11u16
        && (2u16 | 8u16 | 16u16) | 1u16 == 27u16 && (1u16 | 16u16 | 4u16 | 2u16) | 1u16 == 23u16) by (bit_vector);
}

/// Whether the reserved pages `b` agree with `a` outside the pages `[first, last)`.
pub open spec fn pages_kept_outside(a: Map<u64, MmapPage>, b: Map<u64, MmapPage>, first: int, last: int) -> bool {
    forall|v: u64|
        !(first <= v < last) ==> #[trigger] b.contains_key(v) == a.contains_key(v) && (a.contains_key(v) ==> b[v]
            == a[v])
}

/// Whether no page of `[first, last)` is reserved in `m`, and no frame held there.
pub open spec fn range_released(m: MmapManager, first: int, last: int) -> bool {
    forall|v: u64| first <= v < last ==> !(#[trigger] m.pages().contains_key(v)) && !m.frames().contains_key(v)
}

/// Giving up with `munmap` the pages that `mmap` reserved leaves none of them reserved and no
/// frame held there, and every other page reserved as it was before the `mmap`: `s1` is what
/// `mmap` made of `s0` over pages `[first, last)`, `s2` what `munmap` made of `s1` over the
/// same pages.
pub proof fn law_mmap_then_munmap(s0: MemorySet, s1: MemorySet, s2: MemorySet, first: int, last: int)
    requires
        pages_kept_outside(s0.mmap_manager.pages(), s1.mmap_manager.pages(), first, last),
        pages_kept_outside(s1.mmap_manager.pages(), s2.mmap_manager.pages(), first, last),
        range_released(s2.mmap_manager, first, last),
    ensures
        forall|v: u64| first <= v < last ==> !(#[trigger] s2.mmap_manager.pages().contains_key(v)),
        pages_kept_outside(s0.mmap_manager.pages(), s2.mmap_manager.pages(), first, last),
{
    assert forall|v: u64| !(first <= v < last) implies #[trigger] s2.mmap_manager.pages().contains_key(v)
        == s0.mmap_manager.pages().contains_key(v) && (s0.mmap_manager.pages().contains_key(v)
        ==> s2.mmap_manager.pages()[v] == s0.mmap_manager.pages()[v]) by {
        assert(s1.mmap_manager.pages().contains_key(v) == s0.mmap_manager.pages().contains_key(v));
    }
}

/// An address space.
pub struct MemorySet {
    pub page_table: PageTable,
    /// The areas mapped as a whole.
    pub vm_areas: Vec<VmArea>,
    /// The `mmap` region.
    pub mmap_manager: MmapManager,
    /// The heap, mapped page by page on first touch.
    pub heap_areas: VmArea,
    /// The attached shared memory segments.
    pub shm_areas: Vec<VmArea>,
    /// The attaches of shared memory segments, by start address.
    pub shm_trackers: BTreeMap<u64, SharedMemoryTracker>,
    /// The end of the attached shared memory.
    pub shm_top: u64,
    /// Start of the heap.
    pub brk_start: u64,
    /// Current end of the heap.
    pub brk: u64,
    /// The user stack, mapped page by page on first touch.
    pub user_stack_areas: VmArea,
    /// Bottom of the user stack.
    pub user_stack_start: u64,
    /// Top of the user stack.
    pub user_stack_end: u64,
}

/// Integer keys are ordered as their values are.
proof fn lemma_u64_keys_ordered()
    ensures
        vstd::laws_cmp::obeys_cmp::<u64>(),
{
    broadcast use vstd::laws_cmp::group_laws_cmp;
}

impl MemorySet {
    /// Every area can be mapped.
    pub open spec fn wf(&self) -> bool {
        &&& forall|i: int| 0 <= i < self.vm_areas@.len() ==> area_ok(#[trigger] self.vm_areas@[i])
        &&& area_ok(self.heap_areas)
        &&& area_ok(self.user_stack_areas)
        &&& self.heap_areas.map_type is Framed
        &&& self.user_stack_areas.map_type is Framed
    }

    /// The two spaces agree on everything but their page tables and their areas mapped as
    /// a whole.
    pub open spec fn same_regions(&self, other: MemorySet) -> bool {
        &&& self.mmap_manager == other.mmap_manager
        &&& self.heap_areas == other.heap_areas
        &&& self.shm_areas == other.shm_areas
        &&& self.shm_trackers == other.shm_trackers
        &&& self.shm_top == other.shm_top
        &&& self.brk_start == other.brk_start
        &&& self.brk == other.brk
        &&& self.user_stack_areas == other.user_stack_areas
        &&& self.user_stack_start == other.user_stack_start
        &&& self.user_stack_end == other.user_stack_end
    }

    /// The entries of the page table, by page number.
    pub open spec fn entries(&self) -> Map<u64, u64> {
        self.page_table.entries()
    }

    /// An empty address space: a page table with a fresh root frame, no area, an empty
    /// heap and stack at address 0, an empty `mmap` region at `MMAP_BASE` and the shared
    /// memory starting at `SHM_BASE`. It is a fatal error when no frame is left.
    pub fn new_bare(allocator: &mut StackFrameAllocator) -> (r: MemorySet)
        requires
            old(allocator)@.wf(),
            can_alloc(old(allocator)@, 1),
        ensures
            r.wf(),
            final(allocator)@.wf(),
            old(allocator)@.alloc_spec().1 == Some(r.page_table.root_ppn()),
            final(allocator)@ == old(allocator)@.alloc_spec().0.add_ref_spec(r.page_table.root_ppn()),
            r.entries() == Map::<u64, u64>::empty(),
            r.vm_areas@ == Seq::<VmArea>::empty(),
            r.shm_areas@ == Seq::<VmArea>::empty(),
            r.shm_trackers@ == Map::<u64, SharedMemoryTracker>::empty(),
            r.shm_top == SHM_BASE,
            r.brk_start == 0,
            r.brk == 0,
            r.user_stack_start == 0,
            r.user_stack_end == 0,
            r.mmap_manager.mmap_start == VirtAddr(MMAP_BASE),
            r.mmap_manager.mmap_top == VirtAddr(MMAP_BASE),
            r.mmap_manager.pages().is_empty(),
            r.mmap_manager.frames().is_empty(),
            fresh(r.heap_areas, 0, 0, MapType::Framed, VmAreaType::UserHeap, MapPermission { bits: USER_RW }, None, 0),
            fresh(
                r.user_stack_areas,
                0,
                0,
                MapType::Framed,
                VmAreaType::UserStack,
                MapPermission { bits: USER_RW },
                None,
                0,
            ),
    {
        let page_table = PageTable::new(allocator);
        let r = MemorySet {
            page_table,
            vm_areas: Vec::new(),
            heap_areas: VmArea::new(
                VirtAddr(0),
                VirtAddr(0),
                MapType::Framed,
                VmAreaType::UserHeap,
                MapPermission { bits: USER_RW },
                None,
                0,
            ),
            mmap_manager: MmapManager::new(VirtAddr(MMAP_BASE), VirtAddr(MMAP_BASE)),
            shm_areas: Vec::new(),
            shm_trackers: BTreeMap::new(),
            shm_top: SHM_BASE,
            brk_start: 0,
            brk: 0,
            user_stack_areas: VmArea::new(
                VirtAddr(0),
                VirtAddr(0),
                MapType::Framed,
                VmAreaType::UserStack,
                MapPermission { bits: USER_RW },
                None,
                0,
            ),
            user_stack_start: 0,
            user_stack_end: 0,
        };
        proof {
            lemma_flag_consts();
            assert(r.mmap_manager.pages() =~= Map::<u64, crate::vma::MmapPage>::empty());
            assert(r.mmap_manager.frames() =~= Map::<u64, FrameTracker>::empty());
        }
        r
    }

    /// The value of the `satp` register that selects this address space.
    pub fn token(&self) -> (r: u64)
        ensures
            r == (8u64 << 60u64) | self.page_table.root_ppn(),
    {
        self.page_table.token()
    }

    /// Maps every page of `map_area` and adds it to the areas mapped as a whole. Writing
    /// initial data into the frames of the area is a write to physical memory that the
    /// caller makes. It is a fatal error when no frame is left, and when a page is already
    /// mapped.
    pub fn insert(&mut self, map_area: VmArea, allocator: &mut StackFrameAllocator)
        requires
            old(self).wf(),
            area_ok(map_area),
            old(allocator)@.wf(),
            map_area.map_type is Framed ==> can_alloc(old(allocator)@, (map_area.end() - map_area.start()) as nat),
            forall|v: u64| map_area.holds(v) ==> rule_ok(map_area.map_type, v),
            forall|v: u64| map_area.holds(v) ==> !#[trigger] old(self).page_table.is_mapped(v),
            map_area.map_type is Framed ==> forall|v: u64|
                map_area.holds(v) ==> !#[trigger] map_area.frames().contains_key(v),
        ensures
            final(self).wf(),
            final(allocator)@.wf(),
            final(self).same_regions(*old(self)),
            final(self).page_table.root_ppn() == old(self).page_table.root_ppn(),
            final(self).vm_areas@.len() == old(self).vm_areas@.len() + 1,
            final(self).vm_areas@.drop_last() == old(self).vm_areas@,
            inflated(
                map_area,
                final(self).vm_areas@.last(),
                old(self).entries(),
                final(self).entries(),
                old(allocator)@,
                final(allocator)@,
            ),
    {
        let mut map_area = map_area;
        map_area.inflate_pagetable(&mut self.page_table, allocator);
        self.vm_areas.push(map_area);
        proof {
            assert(self.vm_areas@.drop_last() =~= old(self).vm_areas@);
        }
    }

    /// Maps a new `Framed` area of the pages that cover `[start_va, end_va)`, with rights
    /// `permission`. It is a fatal error when no frame is left, and when a page is already
    /// mapped.
    pub fn insert_framed_area(
        &mut self,
        start_va: VirtAddr,
        end_va: VirtAddr,
        permission: MapPermission,
        area_type: VmAreaType,
        allocator: &mut StackFrameAllocator,
    )
        requires
            old(self).wf(),
            old(allocator)@.wf(),
            permission.bits & !0x1ffu16 == 0,
            end_va.0 + PAGE_SIZE <= u64::MAX,
            start_va.0 as int / (PAGE_SIZE as int) <= (end_va.0 + PAGE_SIZE - 1) / (PAGE_SIZE as int),
            can_alloc(
                old(allocator)@,
                ((end_va.0 + PAGE_SIZE - 1) / (PAGE_SIZE as int) - start_va.0 as int / (PAGE_SIZE as int)) as nat,
            ),
            forall|v: u64|
                start_va.0 / PAGE_SIZE <= v < (end_va.0 + PAGE_SIZE - 1) / (PAGE_SIZE as int)
                    ==> !#[trigger] old(self).page_table.is_mapped(v),
        ensures
            final(self).wf(),
            final(allocator)@.wf(),
            final(self).same_regions(*old(self)),
            final(self).page_table.root_ppn() == old(self).page_table.root_ppn(),
            final(self).vm_areas@.len() == old(self).vm_areas@.len() + 1,
            final(self).vm_areas@.drop_last() == old(self).vm_areas@,
            exists|a: VmArea|
                fresh(a, start_va.0, end_va.0, MapType::Framed, area_type, permission, None, 0) && inflated(
                    a,
                    final(self).vm_areas@.last(),
                    old(self).entries(),
                    final(self).entries(),
                    old(allocator)@,
                    final(allocator)@,
                ),
    {
        let area = VmArea::new(start_va, end_va, MapType::Framed, area_type, permission, None, 0);
        let ghost a = area;
        self.insert(area, allocator);
    }

    /// Removes the first area mapped as a whole that starts at page `start_vpn`, unmapping
    /// its pages, and hands it back (with the frames it owns) for the caller to release;
    /// `None` when no area starts there. It is a fatal error when a page of that area is
    /// not mapped.
    pub fn remove_area_with_start_vpn(&mut self, start_vpn: VirtPageNum) -> (r: Option<VmArea>)
        requires
            old(self).wf(),
            forall|i: int|
                first_starting_at(old(self).vm_areas@, start_vpn.0, i) ==> forall|v: u64|
                    old(self).vm_areas@[i].holds(v) ==> #[trigger] old(self).page_table.is_mapped(v),
        ensures
            final(self).wf(),
            final(self).same_regions(*old(self)),
            final(self).page_table.root_ppn() == old(self).page_table.root_ppn(),
            r is None <==> forall|i: int|
                0 <= i < old(self).vm_areas@.len() ==> (#[trigger] old(self).vm_areas@[i]).start() != start_vpn.0,
            r is None ==> final(self).vm_areas@ == old(self).vm_areas@ && final(self).entries() == old(
                self,
            ).entries(),
            forall|i: int|
                first_starting_at(old(self).vm_areas@, start_vpn.0, i) ==> {
                    &&& r == Some(old(self).vm_areas@[i])
                    &&& final(self).vm_areas@ == old(self).vm_areas@.remove(i)
                    &&& erased(old(self).vm_areas@[i], old(self).entries(), final(self).entries())
                },
    {
        let n = self.vm_areas.len();
        let mut i: usize = 0;
        while i < n
            invariant
                n == self.vm_areas@.len(),
                i <= n,
                *self == *old(self),
                old(self).wf(),
                forall|k: int|
                    first_starting_at(old(self).vm_areas@, start_vpn.0, k) ==> forall|v: u64|
                        old(self).vm_areas@[k].holds(v) ==> #[trigger] old(self).page_table.is_mapped(v),
                forall|j: int| 0 <= j < i ==> (#[trigger] self.vm_areas@[j]).start() != start_vpn.0,
            decreases n - i,
        {
            if self.vm_areas[i].start_vpn().0 == start_vpn.0 {
                proof {
                    assert(first_starting_at(old(self).vm_areas@, start_vpn.0, i as int));
                }
                assert(area_ok(old(self).vm_areas@[i as int]));
                let mut area = self.vm_areas.remove(i);
                area.erase_pagetable(&mut self.page_table);
                proof {
                    assert forall|k: int| 0 <= k < self.vm_areas@.len() implies area_ok(
                        #[trigger] self.vm_areas@[k],
                    ) by {
                        if k < i {
                            assert(self.vm_areas@[k] == old(self).vm_areas@[k]);
                        } else {
                            assert(self.vm_areas@[k] == old(self).vm_areas@[k + 1]);
                        }
                    }
                    assert forall|j: int| first_starting_at(old(self).vm_areas@, start_vpn.0, j) implies j
                        == i by {
                        if j < i {
                        } else if j > i {
                            assert(old(self).vm_areas@[i as int].start() != start_vpn.0);
                        }
                    }
                }
                return Some(area);
            }
            i = i + 1;
        }
        None
    }

    /// Adds an area whose pages are already mapped to the areas mapped as a whole.
    pub fn push_mapped_area(&mut self, map_area: VmArea)
        requires
            old(self).wf(),
            area_ok(map_area),
        ensures
            final(self).wf(),
            final(self).same_regions(*old(self)),
            final(self).page_table == old(self).page_table,
            final(self).vm_areas@ == old(self).vm_areas@.push(map_area),
    {
        self.vm_areas.push(map_area);
    }

    /// Maps the trampoline page, at the top of the address space, to the frame of the
    /// trampoline code at physical address `strampoline`, readable and executable by the
    /// kernel. It is a fatal error when `strampoline` is not page aligned, and when the
    /// page is already mapped.
    pub fn map_trampoline(&mut self, strampoline: u64)
        requires
            (strampoline % 0x100_0000_0000_0000) % PAGE_SIZE == 0,
            !old(self).page_table.is_mapped(TRAMPOLINE / PAGE_SIZE),
        ensures
            old(self).wf() ==> final(self).wf(),
            final(self).same_regions(*old(self)),
            final(self).vm_areas == old(self).vm_areas,
            final(self).page_table.root_ppn() == old(self).page_table.root_ppn(),
            final(self).entries() == old(self).entries().insert(
                TRAMPOLINE / PAGE_SIZE,
                pte_bits(((strampoline % 0x100_0000_0000_0000) / PAGE_SIZE) as u64, 11u16),
            ),
    {
        let va = VirtAddr::from_u64(TRAMPOLINE);
        proof {
            let t = TRAMPOLINE;
            assert(t == 0xffff_ffff_ffff_f000u64 ==> (t >> 39u64 != 0 && t | !0x7f_ffff_ffffu64 == t)) by (bit_vector);
        }
        let vpn = VirtPageNum::from_va(va);
        let ppn = PhysPageNum::from_pa(PhysAddr::from_u64(strampoline));
        self.page_table.map(vpn, ppn, PTEFlags { bits: PTEFlags::R | PTEFlags::X });
        proof {
            lemma_flag_consts();
        }
    }

    /// Maps the page of the signal return trampoline, at `signal_trampoline` (taken in its
    /// canonical form), to the frame of the code at physical address `user_sigreturn`,
    /// readable and executable from user mode. It is a fatal error when an address is not
    /// page aligned, and when the page is already mapped.
    pub fn map_signal_trampoline(&mut self, signal_trampoline: u64, user_sigreturn: u64)
        requires
            canonical_va(signal_trampoline) % PAGE_SIZE == 0,
            (user_sigreturn % 0x100_0000_0000_0000) % PAGE_SIZE == 0,
            !old(self).page_table.is_mapped(canonical_va(signal_trampoline) / PAGE_SIZE),
        ensures
            old(self).wf() ==> final(self).wf(),
            final(self).same_regions(*old(self)),
            final(self).vm_areas == old(self).vm_areas,
            final(self).page_table.root_ppn() == old(self).page_table.root_ppn(),
            final(self).entries() == old(self).entries().insert(
                canonical_va(signal_trampoline) / PAGE_SIZE,
                pte_bits(((user_sigreturn % 0x100_0000_0000_0000) / PAGE_SIZE) as u64, 27u16),
            ),
    {
        let vpn = VirtPageNum::from_va(VirtAddr::from_u64(signal_trampoline));
        let ppn = PhysPageNum::from_pa(PhysAddr::from_u64(user_sigreturn));
        self.page_table.map(vpn, ppn, PTEFlags { bits: PTEFlags::R | PTEFlags::X | PTEFlags::U });
        proof {
            lemma_flag_consts();
        }
    }

    /// Maps the `Framed` area of the trap context, from `trap_context_base` to
    /// `signal_trampoline` (both taken in their canonical form), readable and writable by
    /// the kernel. It is a fatal error when no frame is left, and when a page is already
    /// mapped.
    pub fn map_trap_context(
        &mut self,
        trap_context_base: u64,
        signal_trampoline: u64,
        allocator: &mut StackFrameAllocator,
    )
        requires
            old(self).wf(),
            old(allocator)@.wf(),
            canonical_va(signal_trampoline) + PAGE_SIZE <= u64::MAX,
            canonical_va(trap_context_base) as int / (PAGE_SIZE as int) <= (canonical_va(signal_trampoline)
                + PAGE_SIZE - 1) / (PAGE_SIZE as int),
            can_alloc(
                old(allocator)@,
                ((canonical_va(signal_trampoline) + PAGE_SIZE - 1) / (PAGE_SIZE as int) - canonical_va(
                    trap_context_base,
                ) as int / (PAGE_SIZE as int)) as nat,
            ),
            forall|v: u64|
                canonical_va(trap_context_base) / PAGE_SIZE <= v < (canonical_va(signal_trampoline) + PAGE_SIZE
                    - 1) / (PAGE_SIZE as int) ==> !#[trigger] old(self).page_table.is_mapped(v),
        ensures
            final(self).wf(),
            final(allocator)@.wf(),
            final(self).same_regions(*old(self)),
            final(self).page_table.root_ppn() == old(self).page_table.root_ppn(),
            final(self).vm_areas@.len() == old(self).vm_areas@.len() + 1,
            final(self).vm_areas@.drop_last() == old(self).vm_areas@,
            exists|a: VmArea|
                fresh(
                    a,
                    canonical_va(trap_context_base),
                    canonical_va(signal_trampoline),
                    MapType::Framed,
                    VmAreaType::TrapContext,
                    MapPermission { bits: KERNEL_RW },
                    None,
                    0,
                ) && inflated(
                    a,
                    final(self).vm_areas@.last(),
                    old(self).entries(),
                    final(self).entries(),
                    old(allocator)@,
                    final(allocator)@,
                ),
    {
        proof {
            lemma_flag_consts();
        }
        self.insert_framed_area(
            VirtAddr::from_u64(trap_context_base),
            VirtAddr::from_u64(signal_trampoline),
            MapPermission { bits: KERNEL_RW },
            VmAreaType::TrapContext,
            allocator,
        );
    }

    /// Maps the one-page `Framed` area of the trap context of thread `tid`, see
    /// `trap_context_position`. It is a fatal error unless `0 < tid < thread_limit`, when no
    /// frame is left, and when the page is already mapped.
    pub fn map_thread_trap_context(
        &mut self,
        tid: u64,
        trap_context_base: u64,
        thread_limit: u64,
        allocator: &mut StackFrameAllocator,
    )
        requires
            old(self).wf(),
            old(allocator)@.wf(),
            0 < tid < thread_limit,
            tid * PAGE_SIZE <= trap_context_base,
            canonical_va((trap_context_base - tid * PAGE_SIZE) as u64) + PAGE_SIZE <= u64::MAX,
            canonical_va((canonical_va((trap_context_base - tid * PAGE_SIZE) as u64) + PAGE_SIZE) as u64)
                + PAGE_SIZE <= u64::MAX,
            canonical_va((trap_context_base - tid * PAGE_SIZE) as u64) as int / (PAGE_SIZE as int) <= (
            canonical_va((canonical_va((trap_context_base - tid * PAGE_SIZE) as u64) + PAGE_SIZE) as u64)
                + PAGE_SIZE - 1) / (PAGE_SIZE as int),
            can_alloc(
                old(allocator)@,
                ((canonical_va((canonical_va((trap_context_base - tid * PAGE_SIZE) as u64) + PAGE_SIZE) as u64)
                    + PAGE_SIZE - 1) / (PAGE_SIZE as int) - canonical_va(
                    (trap_context_base - tid * PAGE_SIZE) as u64,
                ) as int / (PAGE_SIZE as int)) as nat,
            ),
            forall|v: u64|
                canonical_va((trap_context_base - tid * PAGE_SIZE) as u64) / PAGE_SIZE <= v < (canonical_va(
                    (canonical_va((trap_context_base - tid * PAGE_SIZE) as u64) + PAGE_SIZE) as u64,
                ) + PAGE_SIZE - 1) / (PAGE_SIZE as int) ==> !#[trigger] old(self).page_table.is_mapped(v),
        ensures
            final(self).wf(),
            final(allocator)@.wf(),
            final(self).same_regions(*old(self)),
            final(self).page_table.root_ppn() == old(self).page_table.root_ppn(),
            final(self).vm_areas@.len() == old(self).vm_areas@.len() + 1,
            final(self).vm_areas@.drop_last() == old(self).vm_areas@,
            exists|a: VmArea|
                fresh(
                    a,
                    canonical_va((trap_context_base - tid * PAGE_SIZE) as u64),
                    canonical_va((canonical_va((trap_context_base - tid * PAGE_SIZE) as u64) + PAGE_SIZE) as u64),
                    MapType::Framed,
                    VmAreaType::TrapContext,
                    MapPermission { bits: KERNEL_RW },
                    None,
                    0,
                ) && inflated(
                    a,
                    final(self).vm_areas@.last(),
                    old(self).entries(),
                    final(self).entries(),
                    old(allocator)@,
                    final(allocator)@,
                ),
    {
        proof {
            lemma_flag_consts();
        }
        let start_va = trap_context_position(trap_context_base, tid);
        let end_va = VirtAddr::from_u64(start_va.0 + PAGE_SIZE);
        self.insert_framed_area(start_va, end_va, MapPermission { bits: KERNEL_RW }, VmAreaType::TrapContext, allocator);
    }

    /// Maps page `vpn` of the heap on its first touch, see `VmArea::lazy_map_vpn`; returns 0
    /// and the handle that the heap held for that page before, if any, for the caller to
    /// release. It is a fatal error when no frame is left, and when the page is already
    /// mapped.
    pub fn lazy_alloc_heap(&mut self, vpn: VirtPageNum, allocator: &mut StackFrameAllocator) -> (r: (
        isize,
        Option<FrameTracker>,
    ))
        requires
            old(self).wf(),
            old(allocator)@.wf(),
            old(self).heap_areas.map_type is Framed ==> can_alloc(old(allocator)@, 1),
            rule_ok(old(self).heap_areas.map_type, vpn.0),
            !old(self).page_table.is_mapped(vpn.0),
        ensures
            r.0 == 0,
            final(self).wf(),
            final(allocator)@.wf(),
            heap_mapped(*old(self), *final(self), vpn.0, old(allocator)@, final(allocator)@, r.1),
    {
        let displaced = self.heap_areas.lazy_map_vpn(vpn, &mut self.page_table, allocator);
        (0, displaced)
    }

    /// Maps page `vpn` of the user stack on its first touch, as `lazy_alloc_heap` does for
    /// the heap.
    pub fn lazy_alloc_stack(&mut self, vpn: VirtPageNum, allocator: &mut StackFrameAllocator) -> (r: (
        isize,
        Option<FrameTracker>,
    ))
        requires
            old(self).wf(),
            old(allocator)@.wf(),
            old(self).user_stack_areas.map_type is Framed ==> can_alloc(old(allocator)@, 1),
            rule_ok(old(self).user_stack_areas.map_type, vpn.0),
            !old(self).page_table.is_mapped(vpn.0),
        ensures
            r.0 == 0,
            final(self).wf(),
            final(allocator)@.wf(),
            stack_mapped(*old(self), *final(self), vpn.0, old(allocator)@, final(allocator)@, r.1),
    {
        let displaced = self.user_stack_areas.lazy_map_vpn(vpn, &mut self.page_table, allocator);
        (0, displaced)
    }

    /// Whether the addresses `[start, start + len)` lie in one area mapped as a whole, in the
    /// `mmap` region (the end strictly below its top), in the heap or in the stack; the end
    /// address is taken in its canonical form and the bounds are rounded out to pages, but
    /// for the `mmap` region.
    #[verifier::opaque]
    pub open spec fn va_range_valid(&self, start: u64, len: usize) -> bool {
        let lo = start / PAGE_SIZE;
        let end = canonical_va((start + len) as u64);
        let hi = (end + PAGE_SIZE - 1) / (PAGE_SIZE as int);
        ||| exists|i: int| 0 <= i < self.vm_areas@.len() && covers(#[trigger] self.vm_areas@[i], lo as int, hi)
        ||| self.mmap_manager.mmap_start.0 <= start && end < self.mmap_manager.mmap_top.0
        ||| covers(self.heap_areas, lo as int, hi)
        ||| covers(self.user_stack_areas, lo as int, hi)
    }

    /// Whether the addresses `[start_va, start_va + len)` lie in one area mapped as a whole,
    /// in the `mmap` region (the end strictly below its top), in the heap or in the stack;
    /// the end address is taken in its canonical form and the bounds are rounded out to
    /// pages, but for the `mmap` region.
    pub fn check_va_range(&self, start_va: VirtAddr, len: usize) -> (r: bool)
        requires
            start_va.0 + len <= u64::MAX,
            canonical_va((start_va.0 + len) as u64) + PAGE_SIZE <= u64::MAX,
        ensures
            r == self.va_range_valid(start_va.0, len),
    {
        reveal(MemorySet::va_range_valid);
        let end_va = VirtAddr::from_u64(start_va.0 + len as u64);
        let lo = start_va.floor().0;
        let hi = end_va.ceil().0;
        let n = self.vm_areas.len();
        let mut i: usize = 0;
        while i < n
            invariant
                n == self.vm_areas@.len(),
                i <= n,
                lo == start_va.0 / PAGE_SIZE,
                hi == (end_va.0 + PAGE_SIZE - 1) / (PAGE_SIZE as int),
                end_va.0 == canonical_va((start_va.0 + len) as u64),
                forall|j: int| 0 <= j < i ==> !covers(#[trigger] self.vm_areas@[j], lo as int, hi as int),
            decreases n - i,
        {
            let area = &self.vm_areas[i];
            if area.vpn_range.get_start().0 <= lo && hi <= area.vpn_range.get_end().0 {
                proof {
                    reveal(MemorySet::va_range_valid);
                    assert(covers(self.vm_areas@[i as int], lo as int, hi as int));
                }
                return true;
            }
            i = i + 1;
        }
        if self.mmap_manager.mmap_start.0 <= start_va.0 && end_va.0 < self.mmap_manager.mmap_top.0 {
            return true;
        }
        if self.heap_areas.vpn_range.get_start().0 <= lo && hi <= self.heap_areas.vpn_range.get_end().0 {
            return true;
        }
        if self.user_stack_areas.vpn_range.get_start().0 <= lo && hi <= self.user_stack_areas.vpn_range.get_end().0 {
            return true;
        }
        false
    }

    /// Resolves a write to page `vpn`, mapped copy on write to frame `former_ppn`. When the
    /// page is the only user of the frame, its entry is made writable again. Else the page
    /// is moved to a new frame (copying the bytes of the shared frame into it is a write to
    /// physical memory that the caller makes), and the handle on the new frame is kept
    /// where the page belongs (see `cow_put`); the handle kept there before, on the shared
    /// frame, is handed back for the caller to release. Returns 0. It is a fatal error when
    /// no frame is left, and when nothing holds the page.
    pub fn cow_alloc(
        &mut self,
        vpn: VirtPageNum,
        former_ppn: PhysPageNum,
        allocator: &mut StackFrameAllocator,
    ) -> (r: (isize, Option<FrameTracker>))
        requires
            old(self).wf(),
            old(allocator)@.wf(),
            old(allocator)@.allocated(former_ppn.0),
            old(self).entries().contains_key(vpn.0),
            old(allocator)@.refs[former_ppn.0] != 1 ==> can_alloc(old(allocator)@, 1) && cow_target_ok(
                *old(self),
                vpn.0,
            ),
        ensures
            r.0 == 0,
            final(self).wf(),
            final(allocator)@.wf(),
            cow_resolved(*old(self), *final(self), vpn.0, former_ppn.0, old(allocator)@, final(allocator)@, r.1),
    {
        proof {
            lemma_u64_keys_ordered();
        }
        if enquire_refcount(former_ppn, allocator) == 1 {
            self.page_table.reset_cow(vpn);
            let e = self.page_table.translate(vpn).unwrap();
            let flags = e.flags();
            self.page_table.set_flags(vpn, PTEFlags { bits: flags.bits | PTEFlags::W });
            proof {
                assert(self.entries() == old(self).entries().insert(vpn.0, made_writable(old(self).entries()[vpn.0])));
                assert(*self == (MemorySet { page_table: self.page_table, ..*old(self) }));
            }
            return (0, None);
        }
        let ghost a0 = allocator@;
        proof {
            crate::frame_allocator::lemma_alloc_fresh(a0);
            if a0.recycled.len() == 0 {
                assert(a0.current < a0.end);
            }
        }
        let frame = alloc_frame(allocator).unwrap();
        let ppn = frame.ppn;
        self.remap_cow(vpn, ppn, former_ppn);
        let ghost s1 = *self;
        proof {
            assert(s1.wf());
        }
        let n = self.vm_areas.len();
        let mut i: usize = 0;
        while i < n
            invariant
                n == self.vm_areas@.len(),
                i <= n,
                *self == s1,
                s1.wf(),
                s1 == (MemorySet { page_table: s1.page_table, ..*old(self) }),
                s1.page_table.root_ppn() == old(self).page_table.root_ppn(),
                s1.entries() == old(self).entries().insert(
                    vpn.0,
                    pte_bits(ppn.0, ((pte_flags(old(self).entries()[vpn.0]) | 4u16) & !0x100u16) as u16),
                ),
                a0 == old(allocator)@,
                old(allocator)@.refs[former_ppn.0] != 1,
                a0.alloc_spec().1 == Some(ppn.0),
                allocator@ == a0.alloc_spec().0.add_ref_spec(ppn.0),
                allocator@.wf(),
                frame.ppn == ppn,
                forall|j: int| 0 <= j < i ==> !(#[trigger] self.vm_areas@[j]).holds(vpn.0),
            decreases n - i,
        {
            if self.vm_areas[i].vpn_range.contains(vpn) {
                proof {
                    lemma_u64_keys_ordered();
                    assert(first_holding(s1.vm_areas@, vpn.0, i as int));
                    assert forall|j: int| first_holding(s1.vm_areas@, vpn.0, j) implies j == i by {
                        if j > i {
                            assert(s1.vm_areas@[i as int].holds(vpn.0));
                        }
                    }
                }
                let mut area = self.vm_areas.remove(i);
                let displaced = area.frame_map.insert(vpn.0, frame);
                self.vm_areas.insert(i, area);
                proof {
                    assert forall|k: int| 0 <= k < self.vm_areas@.len() implies area_ok(
                        #[trigger] self.vm_areas@[k],
                    ) by {
                        if k != i {
                            assert(self.vm_areas@[k] == s1.vm_areas@[k]);
                        }
                    }
                }
                return (0, displaced);
            }
            i = i + 1;
        }
        proof {
            lemma_u64_keys_ordered();
            assert(!exists|j: int| first_holding(s1.vm_areas@, vpn.0, j));
        }
        if vpn.0 >= VirtPageNum::from_va(self.mmap_manager.mmap_start).0 && vpn.0 < VirtPageNum::from_va(
            self.mmap_manager.mmap_top,
        ).0 {
            let displaced = self.mmap_manager.frame_trackers.insert(vpn.0, frame);
            return (0, displaced);
        }
        if self.user_stack_areas.vpn_range.contains(vpn) {
            let displaced = self.user_stack_areas.frame_map.insert(vpn.0, frame);
            return (0, displaced);
        }
        let displaced = self.heap_areas.frame_map.insert(vpn.0, frame);
        (0, displaced)
    }

    /// Moves page `vpn` from its shared frame to frame `ppn`, see `PageTable::remap_cow`.
    fn remap_cow(&mut self, vpn: VirtPageNum, ppn: PhysPageNum, former_ppn: PhysPageNum)
        requires
            old(self).entries().contains_key(vpn.0),
        ensures
            *final(self) == (MemorySet { page_table: final(self).page_table, ..*old(self) }),
            final(self).page_table.root_ppn() == old(self).page_table.root_ppn(),
            final(self).entries() == old(self).entries().insert(
                vpn.0,
                pte_bits(ppn.0, ((pte_flags(old(self).entries()[vpn.0]) | 4u16) & !0x100u16) as u16),
            ),
    {
        self.page_table.remap_cow(vpn, ppn, former_ppn);
    }

    /// Attaches segment `key` at `start_va` for process `pid` at time `now`: maps its pages
    /// to the segment's frames, readable and writable from user mode, raises the top of
    /// the shared memory, records the attach under `start_va` and adds a `Shared` area of
    /// the segment's pages. Returns `true` and the attach recorded under `start_va` before,
    /// if any, for the caller to release. When the segment's storage is not page aligned, or
    /// ends past the largest address, nothing changes and `false` is returned. A page
    /// already mapped is a fatal error.
    pub fn attach_shm(
        &mut self,
        key: u64,
        start_va: VirtAddr,
        manager: &mut SharedMemoryManager,
        pid: usize,
        now: usize,
    ) -> (r: (bool, Option<SharedMemoryTracker>))
        requires
            old(self).wf(),
            old(manager).areas().contains_key(key),
            old(manager).areas()[key].shmid_ds.shm_nattch < usize::MAX,
            start_va.0 % PAGE_SIZE == 0,
            start_va.0 + old(manager).areas()[key].shmid_ds.shm_size + PAGE_SIZE <= u64::MAX,
            shm_pages_distinct(start_va.0, old(manager).areas()[key].shmid_ds.shm_size as u64),
            forall|k: int|
                0 <= k < shm_count(old(manager).areas()[key].shmid_ds.shm_size as u64)
                    ==> !old(self).page_table.is_mapped(#[trigger] shm_page(start_va.0, k)),
        ensures
            final(self).wf(),
            !r.0 ==> *final(self) == *old(self) && *final(manager) == *old(manager) && r.1 is None,
            r.0 ==> shm_attached(*old(self), *final(self), *old(manager), *final(manager), key, start_va.0, r.1),
    {
        proof {
            lemma_u64_keys_ordered();
        }
        let (start_pa, size) = shm_get_address_and_size(manager, key);
        let size64 = size as u64;
        if start_pa.0 % PAGE_SIZE != 0 || start_pa.0 > u64::MAX - size64 {
            return (false, None);
        }
        let ghost pt0 = self.entries();
        let ghost count = shm_count(size64);
        let mut offset: u64 = 0;
        let mut k: u64 = 0;
        while offset < size64
            invariant
                offset == k * PAGE_SIZE,
                size64 == old(manager).areas()[key].shmid_ds.shm_size,
                count == shm_count(size64),
                k <= count,
                offset < size64 ==> k < count,
                offset >= size64 ==> k == count,
                start_va.0 % PAGE_SIZE == 0,
                start_pa.0 % PAGE_SIZE == 0,
                start_pa.0 + size64 <= u64::MAX,
                start_va.0 + size64 + PAGE_SIZE <= u64::MAX,
                shm_pages_distinct(start_va.0, size64),
                forall|j: int| 0 <= j < count ==> !#[trigger] old(self).page_table.is_mapped(shm_page(start_va.0, j)),
                pt0 == old(self).entries(),
                self.entries() == shm_mapped(pt0, start_va.0, start_pa.0, k as nat),
                self.page_table.root_ppn() == old(self).page_table.root_ppn(),
                *self == (MemorySet { page_table: self.page_table, ..*old(self) }),
            decreases count - k,
        {
            let va = VirtAddr::from_u64(start_va.0 + offset);
            proof {
                assert((start_va.0 + offset) % (PAGE_SIZE as int) == 0) by (nonlinear_arith)
                    requires
                        start_va.0 % PAGE_SIZE == 0,
                        offset == k * PAGE_SIZE,
                ;
                lemma_canonical_aligned((start_va.0 + offset) as u64);
                assert forall|j: int| 0 <= j < k implies shm_page(start_va.0, j) != shm_page(start_va.0, k as int) by {
                }
                lemma_shm_other_pages(pt0, start_va.0, start_pa.0, k as nat, shm_page(start_va.0, k as int));
                assert(!old(self).page_table.is_mapped(shm_page(start_va.0, k as int)));
            }
            let pa = PhysAddr::from_u64(start_pa.0 + offset);
            proof {
                assert((start_pa.0 + offset) % 0x100_0000_0000_0000int % (PAGE_SIZE as int) == 0) by (nonlinear_arith)
                    requires
                        start_pa.0 % PAGE_SIZE == 0,
                        offset == k * PAGE_SIZE,
                ;
            }
            self.page_table.map(
                VirtPageNum::from_va(va),
                PhysPageNum::from_pa(pa),
                PTEFlags { bits: PTEFlags::V | PTEFlags::U | PTEFlags::W | PTEFlags::R },
            );
            proof {
                lemma_flag_consts();
                assert(count == (size64 + PAGE_SIZE - 1) / (PAGE_SIZE as int));
                assert(offset + PAGE_SIZE < size64 ==> k + 1 < count) by (nonlinear_arith)
                    requires
                        offset == k * PAGE_SIZE,
                        count == (size64 + PAGE_SIZE - 1) / (PAGE_SIZE as int),
                ;
                assert(offset + PAGE_SIZE >= size64 ==> k + 1 == count) by (nonlinear_arith)
                    requires
                        offset == k * PAGE_SIZE,
                        offset < size64,
                        count == (size64 + PAGE_SIZE - 1) / (PAGE_SIZE as int),
                ;
            }
            offset = offset + PAGE_SIZE;
            k = k + 1;
        }
        if self.shm_top < start_va.0 + size64 {
            self.shm_top = start_va.0 + size64;
        }
        let shm_tracker = SharedMemoryTracker::new(key, manager, pid, now);
        let displaced = self.shm_trackers.insert(start_va.0, shm_tracker);
        proof {
            lemma_flag_consts();
        }
        let vma = VmArea::new(
            start_va,
            VirtAddr(start_va.0 + size64),
            MapType::Framed,
            VmAreaType::Shared,
            MapPermission { bits: KERNEL_RW },
            None,
            0,
        );
        self.shm_areas.push(vma);
        proof {
            assert(self.shm_areas@.drop_last() =~= old(self).shm_areas@);
        }
        (true, displaced)
    }

    /// Detaches the segment attached at `start_va`, for process `pid` at time `now`: unmaps
    /// its pages, gives the attach back, drops the `Shared` areas that start at its first
    /// page, and returns the number of attaches left. It is a fatal error when nothing is
    /// attached there, when `start_va` is not page aligned, and when a page is not mapped.
    pub fn detach_shm(
        &mut self,
        start_va: VirtAddr,
        manager: &mut SharedMemoryManager,
        pid: usize,
        now: usize,
    ) -> (r: usize)
        requires
            old(self).wf(),
            old(self).shm_trackers@.contains_key(start_va.0),
            old(manager).areas().contains_key(old(self).shm_trackers@[start_va.0].key),
            old(manager).areas()[old(self).shm_trackers@[start_va.0].key].shmid_ds.shm_nattch > 0,
            start_va.0 % PAGE_SIZE == 0,
            start_va.0 + old(manager).areas()[old(self).shm_trackers@[start_va.0].key].shmid_ds.shm_size
                + PAGE_SIZE <= u64::MAX,
            shm_pages_distinct(
                start_va.0,
                old(manager).areas()[old(self).shm_trackers@[start_va.0].key].shmid_ds.shm_size as u64,
            ),
            forall|k: int|
                0 <= k < shm_count(
                    old(manager).areas()[old(self).shm_trackers@[start_va.0].key].shmid_ds.shm_size as u64,
                ) ==> old(self).page_table.is_mapped(#[trigger] shm_page(start_va.0, k)),
        ensures
            shm_detached(*old(self), *final(self), *old(manager), *final(manager), start_va.0, r),
            final(self).wf(),
            final(self).page_table.root_ppn() == old(self).page_table.root_ppn(),
            *final(self) == (MemorySet {
                page_table: final(self).page_table,
                shm_trackers: final(self).shm_trackers,
                shm_areas: final(self).shm_areas,
                ..*old(self)
            }),
    {
        proof {
            lemma_u64_keys_ordered();
        }
        let key = self.shm_trackers.get(&start_va.0).unwrap().key;
        let (_, size) = shm_get_address_and_size(manager, key);
        let size64 = size as u64;
        let ghost pt0 = self.entries();
        let ghost count = shm_count(size64);
        let mut offset: u64 = 0;
        let mut k: u64 = 0;
        while offset < size64
            invariant
                offset == k * PAGE_SIZE,
                count == shm_count(size64),
                k <= count,
                offset < size64 ==> k < count,
                offset >= size64 ==> k == count,
                start_va.0 % PAGE_SIZE == 0,
                start_va.0 + size64 + PAGE_SIZE <= u64::MAX,
                shm_pages_distinct(start_va.0, size64),
                forall|j: int| 0 <= j < count ==> #[trigger] old(self).page_table.is_mapped(shm_page(start_va.0, j)),
                pt0 == old(self).entries(),
                self.entries() == shm_unmapped(pt0, start_va.0, k as nat),
                self.page_table.root_ppn() == old(self).page_table.root_ppn(),
                *self == (MemorySet { page_table: self.page_table, ..*old(self) }),
            decreases count - k,
        {
            let va = VirtAddr::from_u64(start_va.0 + offset);
            proof {
                assert((start_va.0 + offset) % (PAGE_SIZE as int) == 0) by (nonlinear_arith)
                    requires
                        start_va.0 % PAGE_SIZE == 0,
                        offset == k * PAGE_SIZE,
                ;
                lemma_canonical_aligned((start_va.0 + offset) as u64);
                assert forall|j: int| 0 <= j < k implies shm_page(start_va.0, j) != shm_page(start_va.0, k as int) by {
                }
                lemma_shm_other_pages(pt0, start_va.0, 0, k as nat, shm_page(start_va.0, k as int));
                assert(old(self).page_table.is_mapped(shm_page(start_va.0, k as int)));
            }
            self.page_table.unmap(VirtPageNum::from_va(va));
            proof {
                assert(count == (size64 + PAGE_SIZE - 1) / (PAGE_SIZE as int));
                assert(offset + PAGE_SIZE < size64 ==> k + 1 < count) by (nonlinear_arith)
                    requires
                        offset == k * PAGE_SIZE,
                        count == (size64 + PAGE_SIZE - 1) / (PAGE_SIZE as int),
                ;
                assert(offset + PAGE_SIZE >= size64 ==> k + 1 == count) by (nonlinear_arith)
                    requires
                        offset == k * PAGE_SIZE,
                        offset < size64,
                        count == (size64 + PAGE_SIZE - 1) / (PAGE_SIZE as int),
                ;
            }
            offset = offset + PAGE_SIZE;
            k = k + 1;
        }
        let tracker = self.shm_trackers.remove(&start_va.0).unwrap();
        tracker.release(manager, pid, now);
        let vpn = VirtPageNum::from_va(start_va);
        let mut rest: Vec<VmArea> = Vec::new();
        std::mem::swap(&mut rest, &mut self.shm_areas);
        let ghost all = rest@;
        let mut kept: Vec<VmArea> = Vec::new();
        let ghost mut i: int = 0;
        while rest.len() > 0
            invariant
                0 <= i <= all.len(),
                rest@ == all.skip(i),
                kept@ == all.take(i).filter(not_starting_at(vpn.0)),
            decreases rest.len(),
        {
            let a = rest.remove(0);
            proof {
                reveal(Seq::filter);
                assert(all.take(i + 1).drop_last() =~= all.take(i));
                assert(a == all[i]);
                assert(rest@ =~= all.skip(i + 1));
            }
            if a.start_vpn().0 != vpn.0 {
                kept.push(a);
            }
            proof {
                i = i + 1;
            }
        }
        proof {
            assert(all.take(i) =~= all);
            assert forall|j: int| 0 <= j < kept@.len() implies kept@[j] == all.filter(not_starting_at(vpn.0))[j] by {}
        }
        self.shm_areas = kept;
        shm_get_nattch(manager, key)
    }

    /// Maps page `vpn` of the `mmap` region on its first touch: a new frame is kept in the
    /// region, the page is mapped to it with the rights of its protection (read, write and
    /// execute shifted to R, W and X) for user mode, and marked filled. Returns how the
    /// frame is to be filled (a write to physical memory that the caller makes, see
    /// `MmapPage::lazy_map_page`) and the handle that the region held for that page before,
    /// if any, for the caller to release. It is a fatal error when no frame is left, when
    /// the page is not reserved, when it is already mapped, and when a page that is not
    /// anonymous has no file.
    pub fn lazy_mmap(&mut self, vpn: VirtPageNum, allocator: &mut StackFrameAllocator) -> (r: (
        PageFill,
        Option<FrameTracker>,
    ))
        requires
            old(self).wf(),
            old(allocator)@.wf(),
            can_alloc(old(allocator)@, 1),
            old(self).mmap_manager.pages().contains_key(vpn.0),
            old(self).mmap_manager.pages()[vpn.0].anonymous() || old(self).mmap_manager.pages()[vpn.0].file is Some,
            !old(self).page_table.is_mapped(vpn.0),
        ensures
            final(self).wf(),
            final(allocator)@.wf(),
            mmap_filled(*old(self), *final(self), vpn.0, old(allocator)@, final(allocator)@, r),
    {
        proof {
            lemma_u64_keys_ordered();
            crate::frame_allocator::lemma_alloc_fresh(allocator@);
            if allocator@.recycled.len() == 0 {
                assert(allocator@.current < allocator@.end);
            }
        }
        let frame = alloc_frame(allocator).unwrap();
        let ppn = frame.ppn;
        let displaced = self.mmap_manager.frame_trackers.insert(vpn.0, frame);
        let mut mmap_page = *self.mmap_manager.mmap_map.get(&vpn.0).unwrap();
        let bits = ((mmap_page.prot.bits << 1) & 0xf) as u16;
        proof {
            let b = mmap_page.prot.bits;
            assert(((b << 1u64) & 0xfu64) as u16 & !0x1ffu16 == 0) by (bit_vector);
        }
        let pte_flags = PTEFlags::from_bits(bits).unwrap();
        let pte_flags = PTEFlags { bits: pte_flags.bits | PTEFlags::U };
        self.page_table.map(vpn, ppn, pte_flags);
        let fill = mmap_page.lazy_map_page();
        self.mmap_manager.mmap_map.insert(vpn.0, mmap_page);
        (fill, displaced)
    }

    /// Moves the end of the heap by `grow_size` bytes and returns the new end. It is a fatal error when the heap would end past `brk_start + USER_HEAP_SIZE` or before
    /// `brk_start`.
    pub fn grow_proc(&mut self, grow_size: isize) -> (r: u64)
        requires
            old(self).brk_start + USER_HEAP_SIZE <= u64::MAX,
            grow_size > 0 ==> old(self).brk + grow_size <= old(self).brk_start + USER_HEAP_SIZE,
            grow_size <= 0 ==> old(self).brk + grow_size >= old(self).brk_start,
        ensures
            r == old(self).brk + grow_size,
            *final(self) == (MemorySet { brk: r, ..*old(self) }),
    {
        let brk = self.brk;
        let new_brk = (brk as i128) + (grow_size as i128);
        self.brk = new_brk as u64;
        self.brk
    }

    /// Places a mapping of `length` bytes of `file` (ignored for an anonymous mapping) from
    /// file offset `offset`, with protection `prot`, at the address that `mmap_start` gives;
    /// a fixed mapping first gives up what was reserved there. Returns the address, and the
    /// handles on the frames given up, for the caller to release. It is a fatal error when
    /// `addr` is not page aligned.
    pub fn mmap(
        &mut self,
        addr: u64,
        length: usize,
        prot: MmapProts,
        flags: MmapFlags,
        file: Option<u64>,
        offset: usize,
    ) -> (r: (u64, Vec<FrameTracker>))
        requires
            addr % PAGE_SIZE == 0,
            mmap_start(*old(self), addr, flags) + length + PAGE_SIZE <= u64::MAX,
            offset + ((mmap_start(*old(self), addr, flags) + length + PAGE_SIZE - 1) / (PAGE_SIZE as int)
                - (mmap_start(*old(self), addr, flags) as int) / (PAGE_SIZE as int)) * (PAGE_SIZE as int)
                <= usize::MAX,
        ensures
            ({
                let start = mmap_start(*old(self), addr, flags);
                let first = start / PAGE_SIZE;
                let last = (start + length + PAGE_SIZE - 1) / (PAGE_SIZE as int);
                let fixed = flags.bits & MmapFlags::MAP_FIXED == MmapFlags::MAP_FIXED;
                let f = if flags.bits & MmapFlags::MAP_ANONYMOUS == MmapFlags::MAP_ANONYMOUS {
                    None
                } else {
                    file
                };
                &&& r.0 == start
                &&& r.1@ == (if fixed {
                    frames_in(old(self).mmap_manager.frames(), first as u64, last as u64)
                } else {
                    Seq::<FrameTracker>::empty()
                })
                &&& final(self).mmap_manager.mmap_start == old(self).mmap_manager.mmap_start
                &&& final(self).mmap_manager.mmap_top == (if old(self).mmap_manager.mmap_top.0 <= start {
                    VirtAddr(canonical_va((start + length) as u64))
                } else {
                    old(self).mmap_manager.mmap_top
                })
                &&& forall|v: u64|
                    first <= v < last ==> #[trigger] final(self).mmap_manager.pages().contains_key(v)
                        && final(self).mmap_manager.pages()[v] == pushed_page(first as u64, v, prot, flags, f, offset)
                &&& forall|v: u64|
                    !(first <= v < last) ==> #[trigger] final(self).mmap_manager.pages().contains_key(v)
                        == old(self).mmap_manager.pages().contains_key(v) && (old(self).mmap_manager.pages().contains_key(v)
                        ==> final(self).mmap_manager.pages()[v] == old(self).mmap_manager.pages()[v])
                &&& !fixed ==> final(self).mmap_manager.frames() == old(self).mmap_manager.frames()
                &&& pages_kept_outside(old(self).mmap_manager.pages(), final(self).mmap_manager.pages(), first as int, last as int)
                &&& fixed ==> forall|v: u64|
                    #[trigger] final(self).mmap_manager.frames().contains_key(v) == (old(self).mmap_manager.frames().contains_key(v)
                        && !(first <= v < last)) && (final(self).mmap_manager.frames().contains_key(v)
                        ==> final(self).mmap_manager.frames()[v] == old(self).mmap_manager.frames()[v])
            }),
            *final(self) == (MemorySet { mmap_manager: final(self).mmap_manager, ..*old(self) }),
    {
        let mut start_va = VirtAddr(0);
        if addr == 0 {
            start_va = self.mmap_manager.get_mmap_top();
        }
        let mut removed: Vec<FrameTracker> = Vec::new();
        if flags.contains(MmapFlags::MAP_FIXED) {
            start_va = VirtAddr::from_u64(addr);
            removed = self.mmap_manager.remove(start_va, length);
            proof {
                assert forall|v: u64|
                    start_va.0 / PAGE_SIZE <= v < (start_va.0 + length + PAGE_SIZE - 1) / (PAGE_SIZE as int)
                        implies !self.mmap_manager.frames().contains_key(v) by {
                    assert(!self.mmap_manager.pages().contains_key(v));
                }
            }
        }
        let f = if flags.contains(MmapFlags::MAP_ANONYMOUS) {
            None
        } else {
            file
        };
        let ghost m1 = self.mmap_manager;
        self.mmap_manager.push(start_va, length, prot, flags, offset, f);
        proof {
            let start = mmap_start(*old(self), addr, flags);
            let first = start / PAGE_SIZE;
            let last = (start + length + PAGE_SIZE - 1) / (PAGE_SIZE as int);
            assert(start_va.0 == start);
            assert forall|v: u64|
                !(first <= v < last) implies #[trigger] self.mmap_manager.pages().contains_key(v)
                    == old(self).mmap_manager.pages().contains_key(v) && (old(self).mmap_manager.pages().contains_key(v)
                    ==> self.mmap_manager.pages()[v] == old(self).mmap_manager.pages()[v]) by {
                assert(m1.pages().contains_key(v) == old(self).mmap_manager.pages().contains_key(v));
            }
            if flags.bits & MmapFlags::MAP_FIXED == MmapFlags::MAP_FIXED {
                assert forall|v: u64|
                    #[trigger] self.mmap_manager.frames().contains_key(v) == (old(self).mmap_manager.frames().contains_key(v)
                        && !(first <= v < last)) && (self.mmap_manager.frames().contains_key(v)
                        ==> self.mmap_manager.frames()[v] == old(self).mmap_manager.frames()[v]) by {
                    assert(m1.pages().contains_key(v) == m1.pages().contains_key(v));
                    if first <= v < last {
                        assert(!m1.frames().contains_key(v));
                    } else {
                        assert(m1.pages().contains_key(v) == old(self).mmap_manager.pages().contains_key(v));
                    }
                }
            }
            let fixed = flags.bits & MmapFlags::MAP_FIXED == MmapFlags::MAP_FIXED;
            assert(removed@ == (if fixed {
                    frames_in(old(self).mmap_manager.frames(), first as u64, last as u64)
                } else {
                    Seq::<FrameTracker>::empty()
                }));
            assert(self.mmap_manager.mmap_top == (if old(self).mmap_manager.mmap_top.0 <= start {
                    VirtAddr(canonical_va((start + length) as u64))
                } else {
                    old(self).mmap_manager.mmap_top
                }));
            assert(!fixed ==> self.mmap_manager.frames() == old(self).mmap_manager.frames());
            let fs = if flags.bits & MmapFlags::MAP_ANONYMOUS == MmapFlags::MAP_ANONYMOUS {
                None
            } else {
                file
            };
            assert(f == fs);
            assert forall|v: u64|
                first <= v < last implies #[trigger] self.mmap_manager.pages().contains_key(v)
                    && self.mmap_manager.pages()[v] == pushed_page(first as u64, v, prot, flags, fs, offset) by {
                assert(start_va.0 / PAGE_SIZE <= v < (start_va.0 + length + PAGE_SIZE - 1) / (PAGE_SIZE as int));
                assert(self.mmap_manager.pages().contains_key(v));
                assert(self.mmap_manager.pages()[v] == pushed_page((start_va.0 / PAGE_SIZE) as u64, v, prot, flags, f, offset));
            }
        }
        (start_va.0, removed)
    }

    /// Gives up the `mmap` pages that cover `[addr, addr + length)`, see
    /// `MmapManager::remove`; returns 0 and the handles on their frames, for the caller to
    /// release.
    pub fn munmap(&mut self, addr: u64, length: usize) -> (r: (isize, Vec<FrameTracker>))
        requires
            addr + length + PAGE_SIZE <= u64::MAX,
        ensures
            r.0 == 0,
            ({
                let first = addr / PAGE_SIZE;
                let last = (addr + length + PAGE_SIZE - 1) / (PAGE_SIZE as int);
                &&& r.1@ == frames_in(old(self).mmap_manager.frames(), first as u64, last as u64)
                &&& final(self).mmap_manager.mmap_start == old(self).mmap_manager.mmap_start
                &&& final(self).mmap_manager.mmap_top == old(self).mmap_manager.mmap_top
                &&& range_released(final(self).mmap_manager, first as int, last as int)
                &&& pages_kept_outside(old(self).mmap_manager.pages(), final(self).mmap_manager.pages(), first as int, last as int)
                &&& forall|v: u64|
                    first <= v < last ==> !(#[trigger] final(self).mmap_manager.pages().contains_key(v))
                        && !final(self).mmap_manager.frames().contains_key(v)
                &&& forall|v: u64|
                    !(first <= v < last) ==> #[trigger] final(self).mmap_manager.pages().contains_key(v)
                        == old(self).mmap_manager.pages().contains_key(v) && (old(self).mmap_manager.pages().contains_key(v)
                        ==> final(self).mmap_manager.pages()[v] == old(self).mmap_manager.pages()[v])
                        && final(self).mmap_manager.frames().contains_key(v) == old(self).mmap_manager.frames().contains_key(v)
                        && (old(self).mmap_manager.frames().contains_key(v)
                        ==> final(self).mmap_manager.frames()[v] == old(self).mmap_manager.frames()[v])
            }),
            *final(self) == (MemorySet { mmap_manager: final(self).mmap_manager, ..*old(self) }),
    {
        let removed = self.mmap_manager.remove(VirtAddr(addr), length);
        (0, removed)
    }

    /// Handles a page fault at address `va`, at page `va / PAGE_SIZE`: a copy-on-write page
    /// is resolved (see `cow_alloc`); a page mapped by a valid entry gives -4; else a page
    /// of the stack, of the heap, or of the `mmap` region (tried in this order) is mapped on
    /// its first touch, giving 0 (and, for the `mmap` region, how to fill the frame); an
    /// address in none of them gives -1 (the page cannot be loaded). The handle that a map held for the page before,
    /// if any, is handed back for the caller to release. It is a fatal error where the
    /// functions it calls do.
    pub fn check_lazy(&mut self, va: VirtAddr, allocator: &mut StackFrameAllocator) -> (r: (
        isize,
        Option<PageFill>,
        Option<FrameTracker>,
    ))
        requires
            old(self).wf(),
            old(allocator)@.wf(),
            old(self).brk_start + USER_HEAP_SIZE <= u64::MAX,
            ({
                let vpn = va.0 / PAGE_SIZE;
                let has = old(self).entries().contains_key(vpn);
                let e = old(self).entries()[vpn];
                &&& has && pte_cow(e) ==> {
                    &&& old(allocator)@.allocated(pte_ppn(e))
                    &&& old(allocator)@.refs[pte_ppn(e)] != 1 ==> can_alloc(old(allocator)@, 1) && cow_target_ok(
                        *old(self),
                        vpn,
                    )
                }
                &&& !(has && pte_cow(e)) && !(has && pte_valid(e)) ==> {
                    &&& in_stack(*old(self), va.0) || in_heap(*old(self), va.0) ==> can_alloc(old(allocator)@, 1)
                    &&& !in_stack(*old(self), va.0) && !in_heap(*old(self), va.0) && in_mmap_region(*old(self), va.0)
                        ==> {
                        &&& can_alloc(old(allocator)@, 1)
                        &&& old(self).mmap_manager.pages().contains_key(vpn)
                        &&& old(self).mmap_manager.pages()[vpn].anonymous()
                            || old(self).mmap_manager.pages()[vpn].file is Some
                    }
                }
            }),
        ensures
            final(self).wf(),
            final(allocator)@.wf(),
            ({
                let vpn = va.0 / PAGE_SIZE;
                let has = old(self).entries().contains_key(vpn);
                let e = old(self).entries()[vpn];
                if has && pte_cow(e) {
                    &&& r.0 == 0
                    &&& r.1 is None
                    &&& cow_resolved(*old(self), *final(self), vpn, pte_ppn(e), old(allocator)@, final(allocator)@, r.2)
                } else if has && pte_valid(e) {
                    &&& r == (-4isize, None::<PageFill>, None::<FrameTracker>)
                    &&& *final(self) == *old(self)
                    &&& final(allocator)@ == old(allocator)@
                } else if in_stack(*old(self), va.0) {
                    &&& r.0 == 0
                    &&& r.1 is None
                    &&& stack_mapped(*old(self), *final(self), vpn, old(allocator)@, final(allocator)@, r.2)
                } else if in_heap(*old(self), va.0) {
                    &&& r.0 == 0
                    &&& r.1 is None
                    &&& heap_mapped(*old(self), *final(self), vpn, old(allocator)@, final(allocator)@, r.2)
                } else if in_mmap_region(*old(self), va.0) {
                    &&& r.0 == 0
                    &&& r.1 is Some
                    &&& mmap_filled(*old(self), *final(self), vpn, old(allocator)@, final(allocator)@, (r.1->0, r.2))
                } else {
                    &&& r == (-1isize, None::<PageFill>, None::<FrameTracker>)
                    &&& *final(self) == *old(self)
                    &&& final(allocator)@ == old(allocator)@
                }
            }),
    {
        let mmap_start = self.mmap_manager.mmap_start;
        let mmap_end = self.mmap_manager.mmap_top;
        let heap_start = VirtAddr::from_u64(self.brk_start);
        let heap_end = VirtAddr::from_u64(self.brk_start + USER_HEAP_SIZE);
        let stack_start = VirtAddr::from_u64(self.user_stack_start);
        let stack_end = VirtAddr::from_u64(self.user_stack_end);
        let vpn = va.floor();
        let pte = self.translate(vpn);
        match pte {
            Some(e) => {
                if e.is_cow() {
                    let former_ppn = e.ppn();
                    let (code, displaced) = self.cow_alloc(vpn, former_ppn, allocator);
                    return (code, None, displaced);
                }
                if e.is_valid() {
                    return (-4, None, None);
                }
            },
            None => {},
        }
        if stack_start.0 <= va.0 && va.0 < stack_end.0 {
            let (code, displaced) = self.lazy_alloc_stack(va.floor(), allocator);
            (code, None, displaced)
        } else if heap_start.0 <= va.0 && va.0 <= heap_end.0 {
            let (code, displaced) = self.lazy_alloc_heap(va.floor(), allocator);
            (code, None, displaced)
        } else if mmap_start.0 <= va.0 && va.0 < mmap_end.0 {
            let (fill, displaced) = self.lazy_mmap(vpn, allocator);
            (0, Some(fill), displaced)
        } else {
            (-1, None, None)
        }
    }

    /// Whether no page of `[lo, hi)` is mapped by a valid entry.
    pub(crate) fn pages_unmapped(&self, lo: u64, hi: u64) -> (r: bool)
        ensures
            r == (forall|v: u64| lo <= v < hi ==> !#[trigger] self.page_table.is_mapped(v)),
    {
        let mut v = lo;
        while v < hi
            invariant
                lo <= v,
                forall|w: u64| lo <= w < v ==> !#[trigger] self.page_table.is_mapped(w),
            decreases hi - v,
        {
            match self.page_table.translate(VirtPageNum(v)) {
                Some(e) => {
                    if e.is_valid() {
                        assert(self.page_table.is_mapped(v));
                        return false;
                    }
                },
                None => {},
            }
            v = v + 1;
        }
        true
    }

    /// The entry of the slot of page `vpn`, if it has a slot.
    pub fn translate(&self, vpn: VirtPageNum) -> (r: Option<PageTableEntry>)
        ensures
            match r {
                Some(e) => self.entries().contains_key(vpn.0) && e.bits == self.entries()[vpn.0],
                None => !self.entries().contains_key(vpn.0),
            },
    {
        self.page_table.translate(vpn)
    }

    /// Whether page `vpn` has a slot in the page table (it was mapped once).
    pub fn is_lazy_mapped(&self, addr_vpn: VirtPageNum) -> (r: bool)
        ensures
            r == self.entries().contains_key(addr_vpn.0),
    {
        self.page_table.find_pte(addr_vpn).is_some()
    }

    /// Empties the list of areas mapped as a whole and hands them back (with the frames
    /// they own) for the caller to release; the page table stays.
    pub fn recycle_data_pages(&mut self) -> (r: Vec<VmArea>)
        requires
            old(self).wf(),
        ensures
            final(self).wf(),
            r@ == old(self).vm_areas@,
            final(self).vm_areas@ == Seq::<VmArea>::empty(),
            final(self).same_regions(*old(self)),
            final(self).page_table == old(self).page_table,
    {
        let mut areas: Vec<VmArea> = Vec::new();
        std::mem::swap(&mut areas, &mut self.vm_areas);
        areas
    }
}

} // verus!
