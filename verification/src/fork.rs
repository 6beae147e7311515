//! Copying an address space for a new process, sharing its pages copy on write.
use vstd::prelude::*;
use std::collections::BTreeMap;
use vstd::std_specs::btree::spec_keys_iter;
use vstd::std_specs::iter::IteratorSpec;
use crate::address::{canonical_va, PhysPageNum, VirtAddr, VirtPageNum, PAGE_SIZE};
use crate::config::TRAMPOLINE;
use crate::frame_allocator::{FrameAllocatorModel, FrameTracker, StackFrameAllocator};
use crate::loader::UserLayout;
use crate::memory_set::{area_ok, cow_resolved, MemorySet};
use crate::page_table::{can_alloc, free_frames, pte_bits, pte_cow, pte_flags, pte_ppn, pte_valid, PTEFlags, PageTable};
use crate::shared_memory::{SharedMemoryManager, SharedMemoryTracker};
use crate::flags::MapType;
use crate::vm_area::{VmArea, VmAreaType};
use crate::vma::{MmapManager, MmapPage};

verus! {

/// Integer keys are ordered as their values are.
pub(crate) proof fn lemma_u64_keys_ordered()
    ensures
        vstd::laws_cmp::obeys_cmp::<u64>(),
{
    broadcast use vstd::laws_cmp::group_laws_cmp;
}

/// The keys of a map, each once.
fn keys_of<V>(m: &BTreeMap<u64, V>) -> (r: Vec<u64>)
    ensures
        r@.no_duplicates(),
        forall|k: u64| #[trigger] m@.contains_key(k) <==> r@.contains(k),
{
    proof {
        lemma_u64_keys_ordered();
    }
    let mut keys: Vec<u64> = Vec::new();
    let ghost all = spec_keys_iter(m).remaining().unref();
    proof {
        assert(all.to_set() == m@.dom());
    }
    for k in it: m.keys()
        invariant
            keys@ == it.seq().take(it.index() as int).unref(),
            it.seq().unref() == all,
            all.to_set() == m@.dom(),
            all.no_duplicates(),
            it.index() <= it.seq().len(),
    {
        keys.push(*k);
        proof {
            assert(it.seq().take(it.index() + 1).unref() =~= keys@);
        }
    }
    proof {
        assert(keys@ =~= all);
    }
    keys
}

/// The entry that the parent keeps for a page it shares copy on write: write access taken
/// away and the copy-on-write bit set.
pub open spec fn parent_cow(e: u64) -> u64 {
    (((e & !0x3ffu64) | ((pte_flags(e) & !4u16) as u64)) | 0x100u64) as u64
}

/// The entry that the child gets for a page that the parent shares copy on write: the same
/// frame, the parent's flags without write access, valid and copy on write.
pub open spec fn child_cow(e: u64) -> u64 {
    (pte_bits(pte_ppn(e), ((pte_flags(e) & !4u16) | 1u16) as u16) | 0x100u64) as u64
}


/// A page shared copy on write is read-only and marked copy on write in both spaces, valid
/// in the child, and both entries name the frame that the parent's entry named.
pub proof fn law_cow_entries(e: u64)
    ensures
        pte_flags(parent_cow(e)) & 4u16 == 0,
        pte_cow(parent_cow(e)),
        pte_ppn(parent_cow(e)) == pte_ppn(e),
        pte_flags(child_cow(e)) & 4u16 == 0,
        pte_cow(child_cow(e)),
        pte_valid(child_cow(e)),
        pte_ppn(child_cow(e)) == pte_ppn(e),
{
    let f = (e & 0x3ffu64) as u16;
    assert(f == pte_flags(e));
    let g = (f & !4u16) as u16;
    let h = (g | 1u16) as u16;
    let p = (e >> 10u64) & 0xfff_ffff_ffffu64;
    assert(((((e & !0x3ffu64) | (g as u64)) | 0x100u64) & 0x3ffu64) as u16 & 4u16 == 0 && (((e & !0x3ffu64) | (g
        as u64)) | 0x100u64) & 0x100u64 == 0x100u64 && ((((e & !0x3ffu64) | (g as u64)) | 0x100u64) >> 10u64)
        & 0xfff_ffff_ffffu64 == p && ((((p << 10u64) | (h as u64)) | 0x100u64) & 0x3ffu64) as u16 & 4u16 == 0 && (((p
        << 10u64) | (h as u64)) | 0x100u64) & 0x100u64 == 0x100u64 && (((p << 10u64) | (h as u64)) | 0x100u64) & 1u64
        == 1u64 && ((((p << 10u64) | (h as u64)) | 0x100u64) >> 10u64) & 0xfff_ffff_ffffu64 == p) by (bit_vector)
        requires
            p == (e >> 10u64) & 0xfff_ffff_ffffu64,
            h == (g | 1u16) as u16,
            g == (f & !4u16) as u16,
            f == (e & 0x3ffu64) as u16,
    ;
}


/// Sharing a page copy on write takes away write access and nothing else: the child's entry
/// and the parent's new entry keep every flag of the parent's entry `e` (read, execute,
/// user access, global, accessed, dirty and the free bit) but write, which both lose; both
/// are marked copy on write, the child's is valid, and both keep `e`'s frame.
pub proof fn law_cow_keeps_rights(e: u64)
    ensures
        pte_flags(child_cow(e)) & 0x2fau16 == pte_flags(e) & 0x2fau16,
        pte_flags(parent_cow(e)) & 0x2fbu16 == pte_flags(e) & 0x2fbu16,
        pte_flags(child_cow(e)) & 2u16 == pte_flags(e) & 2u16,
        pte_flags(child_cow(e)) & 8u16 == pte_flags(e) & 8u16,
        pte_flags(child_cow(e)) & 16u16 == pte_flags(e) & 16u16,
        pte_flags(child_cow(e)) & 4u16 == 0,
        pte_flags(parent_cow(e)) & 4u16 == 0,
        pte_flags(child_cow(e)) & 0x101u16 == 0x101u16,
        pte_flags(parent_cow(e)) & 0x100u16 == 0x100u16,
        pte_ppn(child_cow(e)) == pte_ppn(e),
        pte_ppn(parent_cow(e)) == pte_ppn(e),
{
    let f = (e & 0x3ffu64) as u16;
    let p = (e >> 10u64) & 0xfff_ffff_ffffu64;
    let c = ((((p << 10u64) | (((f & !4u16) | 1u16) as u16 as u64)) | 0x100u64) & 0x3ffu64) as u16;
    let q = ((((e & !0x3ffu64) | ((f & !4u16) as u16 as u64)) | 0x100u64) & 0x3ffu64) as u16;
    assert(c & 0x2fau16 == f & 0x2fau16 && c & 2u16 == f & 2u16 && c & 8u16 == f & 8u16 && c & 16u16 == f & 16u16
        && c & 4u16 == 0 && c & 0x101u16 == 0x101u16 && q & 0x2fbu16 == f & 0x2fbu16 && q & 4u16 == 0 && q & 0x100u16
        == 0x100u16) by (bit_vector)
        requires
            f == (e & 0x3ffu64) as u16,
            p == (e >> 10u64) & 0xfff_ffff_ffffu64,
            c == ((((p << 10u64) | (((f & !4u16) | 1u16) as u16 as u64)) | 0x100u64) & 0x3ffu64) as u16,
            q == ((((e & !0x3ffu64) | ((f & !4u16) as u16 as u64)) | 0x100u64) & 0x3ffu64) as u16,
    ;
    law_cow_entries(e);
}

/// Copy on write keeps parent and child apart: when the child writes to a page it shares
/// copy on write with its parent (`pt0` the parent's entries before the sharing, `parent`
/// after it, `before` the child's space) and the frame has another reference, the fault
/// (see `cow_resolved`) gives the child a frame that was free, writable and no longer copy
/// on write, while the parent's entry still names the frame they shared. Frame numbers fit
/// in the 44 bits of an entry.
pub proof fn law_child_write_fault_isolated(
    pt0: Map<u64, u64>,
    parent: Map<u64, u64>,
    before: MemorySet,
    after: MemorySet,
    v: u64,
    a0: FrameAllocatorModel,
    a1: FrameAllocatorModel,
    r: Option<FrameTracker>,
)
    requires
        a0.wf(),
        a0.end <= 0x1000_0000_0000,
        cow_shared(pt0, parent, before.entries(), v),
        a0.allocated(pte_ppn(pt0[v])),
        a0.refs[pte_ppn(pt0[v])] != 1,
        cow_resolved(before, after, v, pte_ppn(pt0[v]), a0, a1, r),
    ensures
        after.entries().contains_key(v),
        pte_ppn(after.entries()[v]) != pte_ppn(parent[v]),
        pte_ppn(parent[v]) == pte_ppn(pt0[v]),
        !a0.allocated(pte_ppn(after.entries()[v])),
        pte_flags(after.entries()[v]) & 4u16 == 4u16,
        !pte_cow(after.entries()[v]),
{
    law_cow_entries(pt0[v]);
    crate::frame_allocator::lemma_alloc_fresh(a0);
    let p = a0.alloc_spec().1->0;
    let x = pte_flags(before.entries()[v]);
    let f = ((x | 4u16) & !0x100u16) as u16;
    if a0.recycled.len() > 0 {
        assert(a0.recycled.contains(p));
        let i = choose|i: int| 0 <= i < a0.recycled.len() && a0.recycled[i] == p;
        assert(a0.recycled[i] < a0.current);
    }
    assert(p <= crate::address::PPN_MASK);
    let e = before.entries()[v];
    assert(x == (e & 0x3ffu64) as u16);
    assert(f <= 0x3ffu16 && f & 4u16 == 4u16 && f & 0x100u16 == 0) by (bit_vector)
        requires
            f == ((x | 4u16) & !0x100u16) as u16,
            x == (e & 0x3ffu64) as u16,
    ;
    crate::page_table::lemma_pte_fields(p, f);
}

/// Shares page `vpn` of the parent with the child copy on write, and, when `take_ref`, takes
/// a reference to its frame for the child. `None`, changing nothing, when the parent has no
/// entry for the page, the child already maps it, or the frame cannot take one more
/// reference (a fatal error).
fn share_page(
    parent: &mut PageTable,
    child: &mut PageTable,
    vpn: u64,
    take_ref: bool,
    allocator: &mut StackFrameAllocator,
) -> (r: Option<Option<FrameTracker>>)
    requires
        old(allocator)@.wf(),
    ensures
        final(allocator)@.wf(),
        final(parent).root_ppn() == old(parent).root_ppn(),
        final(child).root_ppn() == old(child).root_ppn(),
        ({
            let e = old(parent).entries()[vpn];
            let p = pte_ppn(e);
            let ok = old(parent).entries().contains_key(vpn) && !old(child).is_mapped(vpn) && (take_ref
                ==> old(allocator)@.allocated(p) && old(allocator)@.refs[p] < 255);
            &&& r is Some <==> ok
            &&& !ok ==> *final(parent) == *old(parent) && *final(child) == *old(child) && final(allocator)@ == old(
                allocator,
            )@
            &&& ok ==> {
                &&& final(parent).entries() == old(parent).entries().insert(vpn, parent_cow(e))
                &&& final(child).entries() == old(child).entries().insert(vpn, child_cow(e))
                &&& final(child).is_mapped(vpn)
                &&& take_ref ==> r == Some(Some(FrameTracker { ppn: PhysPageNum(p) })) && final(allocator)@
                    == old(allocator)@.add_ref_spec(p)
                &&& !take_ref ==> r == Some(None::<FrameTracker>) && final(allocator)@ == old(allocator)@
            }
        }),
{
    let e = match parent.translate(VirtPageNum(vpn)) {
        Some(e) => e,
        None => {
            return None;
        },
    };
    match child.translate(VirtPageNum(vpn)) {
        Some(c) => {
            if c.is_valid() {
                return None;
            }
        },
        None => {},
    }
    let src_ppn = e.ppn();
    if take_ref {
        match allocator.refcount_of(src_ppn) {
            Some(n) => {
                if n >= 255 {
                    return None;
                }
            },
            None => {
                return None;
            },
        }
    }
    let flags = PTEFlags { bits: e.flags().bits & !PTEFlags::W };
    parent.set_flags(VirtPageNum(vpn), flags);
    parent.set_cow(VirtPageNum(vpn));
    child.map(VirtPageNum(vpn), src_ppn, flags);
    child.set_cow(VirtPageNum(vpn));
    proof {
        let f = flags.bits;
        let b = pte_bits(src_ppn.0, (f | 1u16) as u16);
        crate::page_table::lemma_pte_valid_bit(src_ppn.0, (f | 1u16) as u16);
        assert((f | 1u16) & 1u16 == 1u16) by (bit_vector);
        assert(b & 1u64 == 1u64 ==> (b | 0x100u64) & 1u64 == 1u64) by (bit_vector);
    }
    if take_ref {
        let t = FrameTracker::from_ppn(src_ppn, allocator);
        Some(Some(t))
    } else {
        Some(None)
    }
}

/// Whether page `v` of `[lo, hi)` is to be shared: every page when `all`, else the pages
/// that the parent has an entry for.
pub open spec fn to_share(pt: Map<u64, u64>, lo: u64, hi: u64, all: bool, v: u64) -> bool {
    lo <= v < hi && (all || pt.contains_key(v))
}

/// What sharing page `v` did: the parent had an entry for it and the child did not map it;
/// both now map its frame copy on write.
pub open spec fn page_shared(
    pt0: Map<u64, u64>,
    pt1: Map<u64, u64>,
    ct0: PageTable,
    ct1: PageTable,
    v: u64,
) -> bool {
    &&& pt0.contains_key(v)
    &&& !ct0.is_mapped(v)
    &&& pt1.contains_key(v)
    &&& pt1[v] == parent_cow(pt0[v])
    &&& ct1.entries().contains_key(v)
    &&& ct1.entries()[v] == child_cow(pt0[v])
    &&& ct1.is_mapped(v)
}

/// Whether the entry of page `v` is the same in both maps.
pub open spec fn same_at(m0: Map<u64, u64>, m1: Map<u64, u64>, v: u64) -> bool {
    m1.contains_key(v) == m0.contains_key(v) && (m0.contains_key(v) ==> m1[v] == m0[v])
}

/// Whether the handle kept at page `v` is the same in both maps.
pub open spec fn same_frame_at(m0: Map<u64, FrameTracker>, m1: Map<u64, FrameTracker>, v: u64) -> bool {
    m1.contains_key(v) == m0.contains_key(v) && (m0.contains_key(v) ==> m1[v] == m0[v])
}

/// Whether page `v` cannot be shared (see `share_page`) by a parent with entries `pt` with a
/// child `ct` when the frames are `a`: the parent has no entry for it, the child maps it, or
/// (taking a reference) its frame is not handed out or has 255 references.
pub open spec fn share_fails(pt: Map<u64, u64>, ct: PageTable, a: FrameAllocatorModel, take_ref: bool, v: u64) -> bool {
    !(pt.contains_key(v) && !ct.is_mapped(v) && (take_ref ==> a.allocated(pte_ppn(pt[v])) && a.refs[pte_ppn(pt[v])]
        < 255))
}

/// Shares the pages of `[lo, hi)` (all of them when `all`, else those that the parent has an
/// entry for) with the child copy on write, keeping in `frames` a reference to the frame of
/// each when `take_ref`. `false` when a page cannot be shared (see `share_page`), the
/// pages before it shared.
fn share_range(
    parent: &mut PageTable,
    child: &mut PageTable,
    lo: u64,
    hi: u64,
    all: bool,
    take_ref: bool,
    frames: &mut BTreeMap<u64, FrameTracker>,
    allocator: &mut StackFrameAllocator,
) -> (r: bool)
    requires
        old(allocator)@.wf(),
        take_ref ==> forall|v: u64| lo <= v < hi ==> !old(frames)@.contains_key(v),
    ensures
        final(allocator)@.wf(),
        final(parent).root_ppn() == old(parent).root_ppn(),
        final(child).root_ppn() == old(child).root_ppn(),
        final(allocator)@.recycled == old(allocator)@.recycled,
        final(allocator)@.current == old(allocator)@.current,
        final(allocator)@.end == old(allocator)@.end,
        forall|p: u64| old(allocator)@.allocated(p) ==> final(allocator)@.allocated(p),
        !take_ref ==> final(frames)@ == old(frames)@ && final(allocator)@ == old(allocator)@,
        !r ==> exists|v: u64|
            #[trigger] to_share(old(parent).entries(), lo, hi, all, v) && share_fails(
                old(parent).entries(),
                *old(child),
                final(allocator)@,
                take_ref,
                v,
            ) && forall|w: u64|
                to_share(old(parent).entries(), lo, v, all, w) ==> page_shared(
                    old(parent).entries(),
                    final(parent).entries(),
                    *old(child),
                    *final(child),
                    w,
                ),
        r ==> forall|v: u64|
            #[trigger] to_share(old(parent).entries(), lo, hi, all, v) ==> (page_shared(
                old(parent).entries(),
                final(parent).entries(),
                *old(child),
                *final(child),
                v,
            ) && (take_ref ==> final(frames)@.contains_key(v) && final(frames)@[v] == (FrameTracker {
                ppn: PhysPageNum(pte_ppn(old(parent).entries()[v])),
            }))),
        forall|v: u64|
            !#[trigger] to_share(old(parent).entries(), lo, hi, all, v) ==> {
                &&& same_at(old(parent).entries(), final(parent).entries(), v)
                &&& same_at(old(child).entries(), final(child).entries(), v)
                &&& same_frame_at(old(frames)@, final(frames)@, v)
            },
{
    proof {
        lemma_u64_keys_ordered();
    }
    let ghost pt0 = parent.entries();
    let ghost ct0 = *child;
    let ghost fr0 = frames@;
    let ghost a0 = allocator@;
    let mut v = lo;
    while v < hi
        invariant
            lo <= v,
            v <= hi || v == lo,
            pt0 == old(parent).entries(),
            ct0 == *old(child),
            fr0 == old(frames)@,
            a0 == old(allocator)@,
            take_ref ==> forall|w: u64| lo <= w < hi ==> !fr0.contains_key(w),
            allocator@.wf(),
            parent.root_ppn() == old(parent).root_ppn(),
            child.root_ppn() == old(child).root_ppn(),
            allocator@.recycled == a0.recycled,
            allocator@.current == a0.current,
            allocator@.end == a0.end,
            forall|p: u64| a0.allocated(p) ==> allocator@.allocated(p),
            !take_ref ==> frames@ == fr0 && allocator@ == a0,
            forall|w: u64|
                #[trigger] to_share(pt0, lo, v, all, w) ==> (page_shared(pt0, parent.entries(), ct0, *child, w) && (
                take_ref ==> frames@.contains_key(w) && frames@[w] == (FrameTracker {
                    ppn: PhysPageNum(pte_ppn(pt0[w])),
                }))),
            forall|w: u64|
                !#[trigger] to_share(pt0, lo, v, all, w) ==> {
                    &&& same_at(pt0, parent.entries(), w)
                    &&& same_at(ct0.entries(), child.entries(), w)
                    &&& same_frame_at(fr0, frames@, w)
                },
        decreases hi - v,
    {
        proof {
            lemma_u64_keys_ordered();
        }
        let present = match parent.translate(VirtPageNum(v)) {
            Some(_) => true,
            None => false,
        };
        if all || present {
            let ghost pt1 = parent.entries();
            let ghost ct1 = *child;
            let ghost fr1 = frames@;
            let ghost a1 = allocator@;
            proof {
                assert(!to_share(pt0, lo, v, all, v));
                assert(same_at(pt0, pt1, v));
                assert(same_at(ct0.entries(), ct1.entries(), v));
            }
            match share_page(parent, child, v, take_ref, allocator) {
                None => {
                    proof {
                        assert(forall|w: u64| #![auto] !to_share(pt0, lo, hi, all, w) ==> !to_share(pt0, lo, v, all, w));
                        assert(pt1.contains_key(v) == pt0.contains_key(v));
                        assert(ct0.is_mapped(v) == ct1.is_mapped(v));
                        assert(to_share(pt0, lo, hi, all, v));
                        assert(share_fails(pt0, ct0, allocator@, take_ref, v));
                    }
                    return false;
                },
                Some(t) => {
                    match t {
                        Some(t) => {
                            frames.insert(v, t);
                        },
                        None => {},
                    }
                    proof {
                        assert forall|w: u64| a0.allocated(w) implies allocator@.allocated(w) by {
                            assert(a1.allocated(w));
                        }
                        assert forall|w: u64|
                            #[trigger] to_share(pt0, lo, (v + 1) as u64, all, w) implies (page_shared(pt0, parent.entries(), ct0, *child, w)
                                && (take_ref ==> frames@.contains_key(w) && frames@[w] == (FrameTracker {
                                    ppn: PhysPageNum(pte_ppn(pt0[w])),
                                }))) by {
                            if w != v {
                                assert(to_share(pt0, lo, v, all, w));
                                assert(page_shared(pt0, pt1, ct0, ct1, w));
                                if take_ref {
                                    assert(fr1.contains_key(w) && fr1[w] == (FrameTracker {
                                        ppn: PhysPageNum(pte_ppn(pt0[w])),
                                    }));
                                    assert(frames@.contains_key(w) && frames@[w] == fr1[w]);
                                }
                            } else {
                                assert(pt1.contains_key(v) == pt0.contains_key(v));
                                assert(ct0.is_mapped(v) == ct1.is_mapped(v));
                                assert(pt1[v] == pt0[v]);
                            }
                        }
                        assert forall|w: u64|
                            !#[trigger] to_share(pt0, lo, (v + 1) as u64, all, w) implies (same_at(pt0, parent.entries(), w)
                                && same_at(ct0.entries(), child.entries(), w) && same_frame_at(fr0, frames@, w)) by {
                            assert(!to_share(pt0, lo, v, all, w));
                            assert(w != v);
                        }
                    }
                },
            }
        } else {
            proof {
                assert(!to_share(pt0, lo, v, all, v));
                assert(!pt0.contains_key(v));
                assert forall|w: u64|
                    #[trigger] to_share(pt0, lo, (v + 1) as u64, all, w) implies (page_shared(pt0, parent.entries(), ct0, *child, w)
                        && (take_ref ==> frames@.contains_key(w) && frames@[w] == (FrameTracker {
                            ppn: PhysPageNum(pte_ppn(pt0[w])),
                        }))) by {
                    assert(to_share(pt0, lo, v, all, w));
                }
                assert forall|w: u64|
                    !#[trigger] to_share(pt0, lo, (v + 1) as u64, all, w) implies (same_at(pt0, parent.entries(), w)
                        && same_at(ct0.entries(), child.entries(), w) && same_frame_at(fr0, frames@, w)) by {
                    assert(!to_share(pt0, lo, v, all, w));
                }
            }
        }
        let ghost vold = v;
        v = v + 1;
        proof {
            assert(v == (vold + 1) as u64);
        }
    }
    proof {
        assert forall|w: u64| #![auto] to_share(pt0, lo, hi, all, w) == to_share(pt0, lo, v, all, w) by {}
    }
    true
}

/// Whether the two areas are described alike: same pages, mapping, kind, rights and file.
pub open spec fn same_descriptor(a: VmArea, b: VmArea) -> bool {
    &&& a.vpn_range == b.vpn_range
    &&& a.map_type == b.map_type
    &&& a.area_type == b.area_type
    &&& a.permission == b.permission
    &&& a.file == b.file
    &&& a.file_offset == b.file_offset
}

/// Whether the pages of an area of this kind are shared with a child copy on write.
pub open spec fn shared_kind(t: VmAreaType) -> bool {
    t == VmAreaType::Elf || t == VmAreaType::UserStack
}

/// Whether page `v`, whose entry in the parent was `pt0[v]`, is shared copy on write: the
/// parent's entry is now `pt1[v]` and the child's `ct1[v]`.
pub open spec fn cow_shared(pt0: Map<u64, u64>, pt1: Map<u64, u64>, ct1: Map<u64, u64>, v: u64) -> bool {
    &&& pt0.contains_key(v)
    &&& pt1.contains_key(v)
    &&& pt1[v] == parent_cow(pt0[v])
    &&& ct1.contains_key(v)
    &&& ct1[v] == child_cow(pt0[v])
}

/// Whether area `a` of the child keeps a reference to the frame of every page of the
/// parent's area `b`, the frame the parent's entry `pt0` names.
pub open spec fn frames_shared(a: VmArea, b: VmArea, pt0: Map<u64, u64>) -> bool {
    forall|v: u64|
        #[trigger] b.holds(v) ==> a.frames().contains_key(v) && a.frames()[v] == (FrameTracker {
            ppn: PhysPageNum(pte_ppn(pt0[v])),
        })
}

/// Whether page `v` is shared copy on write (see `cow_shared`) and mapped in the child.
pub open spec fn cow_done(pt0: Map<u64, u64>, pt: Map<u64, u64>, ct: PageTable, v: u64) -> bool {
    cow_shared(pt0, pt, ct.entries(), v) && ct.is_mapped(v)
}

/// Whether the child maps page `v` to the frame of the parent's entry `pt0[v]`, with the
/// same flags (made valid).
pub open spec fn copied_at(pt0: Map<u64, u64>, ct: PageTable, v: u64) -> bool {
    &&& ct.entries().contains_key(v)
    &&& ct.entries()[v] == pte_bits(pte_ppn(pt0[v]), (pte_flags(pt0[v]) | 1u16) as u16)
    &&& ct.is_mapped(v)
}

/// A step from parent table `pt0` and child table `ct0` to `pt1` and `ct1` that only adds
/// pages to the child: the parent keeps its pages, every page that the child mapped keeps
/// its entries in both, and the parent's entry changes only at a page the child now maps.
pub open spec fn extends(pt0: Map<u64, u64>, pt1: Map<u64, u64>, ct0: PageTable, ct1: PageTable) -> bool {
    &&& pt1.dom() == pt0.dom()
    &&& forall|v: u64|
        #[trigger] ct0.is_mapped(v) ==> same_at(pt0, pt1, v) && same_at(ct0.entries(), ct1.entries(), v)
    &&& forall|v: u64| !#[trigger] ct1.is_mapped(v) ==> same_at(pt0, pt1, v)
}

/// Two steps that only add pages to the child make one.
proof fn lemma_extends_trans(
    pt0: Map<u64, u64>,
    pt1: Map<u64, u64>,
    pt2: Map<u64, u64>,
    ct0: PageTable,
    ct1: PageTable,
    ct2: PageTable,
)
    requires
        extends(pt0, pt1, ct0, ct1),
        extends(pt1, pt2, ct1, ct2),
    ensures
        extends(pt0, pt2, ct0, ct2),
{
    assert forall|v: u64| #[trigger] ct0.is_mapped(v) implies same_at(pt0, pt2, v) && same_at(
        ct0.entries(),
        ct2.entries(),
        v,
    ) by {
        assert(same_at(ct0.entries(), ct1.entries(), v));
        assert(ct1.is_mapped(v));
    }
    assert forall|v: u64| !#[trigger] ct2.is_mapped(v) implies same_at(pt0, pt2, v) by {
        assert(same_at(pt1, pt2, v));
        if ct1.is_mapped(v) {
            assert(same_at(ct1.entries(), ct2.entries(), v));
        }
    }
}

/// What a step that only adds pages to the child leaves of a page shared before it.
proof fn lemma_cow_kept(
    pt0: Map<u64, u64>,
    pt1: Map<u64, u64>,
    pt2: Map<u64, u64>,
    ct1: PageTable,
    ct2: PageTable,
    v: u64,
)
    requires
        extends(pt1, pt2, ct1, ct2),
        cow_done(pt0, pt1, ct1, v),
    ensures
        cow_done(pt0, pt2, ct2, v),
{
    assert(ct1.is_mapped(v));
    assert(same_at(ct1.entries(), ct2.entries(), v));
}

/// What a step that only adds pages to the child leaves of a page copied before it.
proof fn lemma_copied_kept(pt0: Map<u64, u64>, pt1: Map<u64, u64>, pt2: Map<u64, u64>, ct1: PageTable, ct2: PageTable, v: u64)
    requires
        extends(pt1, pt2, ct1, ct2),
        copied_at(pt0, ct1, v),
    ensures
        copied_at(pt0, ct2, v),
{
    assert(ct1.is_mapped(v));
    assert(same_at(ct1.entries(), ct2.entries(), v));
}

/// Sharing the pages that `sel` selects, which succeeded, only added pages to the child.
proof fn lemma_shared_extends(
    pt0: Map<u64, u64>,
    pt1: Map<u64, u64>,
    ct0: PageTable,
    ct1: PageTable,
    sel: spec_fn(u64) -> bool,
)
    requires
        forall|v: u64| #[trigger] sel(v) ==> page_shared(pt0, pt1, ct0, ct1, v),
        forall|v: u64|
            !#[trigger] sel(v) ==> same_at(pt0, pt1, v) && same_at(ct0.entries(), ct1.entries(), v),
    ensures
        extends(pt0, pt1, ct0, ct1),
{
    assert forall|v: u64| #[trigger] pt1.contains_key(v) <==> pt0.contains_key(v) by {
        if sel(v) {
            assert(page_shared(pt0, pt1, ct0, ct1, v));
        } else {
            assert(same_at(pt0, pt1, v));
        }
    }
    assert(pt1.dom() =~= pt0.dom());
    assert forall|v: u64| #[trigger] ct0.is_mapped(v) implies same_at(pt0, pt1, v) && same_at(
        ct0.entries(),
        ct1.entries(),
        v,
    ) by {
        if sel(v) {
            assert(page_shared(pt0, pt1, ct0, ct1, v));
        }
    }
    assert forall|v: u64| !#[trigger] ct1.is_mapped(v) implies same_at(pt0, pt1, v) by {
        if sel(v) {
            assert(page_shared(pt0, pt1, ct0, ct1, v));
        }
    }
}

/// Copying the entries of the pages that `sel` selects into the child, which succeeded,
/// only added pages to it.
proof fn lemma_copied_extends(pt: Map<u64, u64>, ct0: PageTable, ct1: PageTable, sel: spec_fn(u64) -> bool)
    requires
        forall|v: u64| #[trigger] sel(v) ==> !ct0.is_mapped(v) && copied_at(pt, ct1, v),
        forall|v: u64| !#[trigger] sel(v) ==> same_at(ct0.entries(), ct1.entries(), v),
    ensures
        extends(pt, pt, ct0, ct1),
{
    assert forall|v: u64| #[trigger] ct0.is_mapped(v) implies same_at(pt, pt, v) && same_at(
        ct0.entries(),
        ct1.entries(),
        v,
    ) by {
        if sel(v) {
        }
    }
}

/// Copies the `mmap` region `m`, taking one more reference to the frame of each touched
/// page. `None` when one of those frames cannot take one more (a fatal error).
fn copy_mmap_manager(m: &MmapManager, allocator: &mut StackFrameAllocator) -> (r: Option<MmapManager>)
    requires
        old(allocator)@.wf(),
    ensures
        final(allocator)@.wf(),
        r is None ==> exists|k: u64|
            #[trigger] m.frames().contains_key(k) && !(final(allocator)@.allocated(m.frames()[k].ppn.0)
                && final(allocator)@.refs[m.frames()[k].ppn.0] < 255),
        r matches Some(c) ==> {
            &&& c.mmap_start == m.mmap_start
            &&& c.mmap_top == m.mmap_top
            &&& c.pages() == m.pages()
            &&& c.frames() == m.frames()
        },
{
    proof {
        lemma_u64_keys_ordered();
    }
    let keys = keys_of(&m.frame_trackers);
    let mut trackers: BTreeMap<u64, FrameTracker> = BTreeMap::new();
    let mut j: usize = 0;
    while j < keys.len()
        invariant
            allocator@.wf(),
            forall|k: u64| #[trigger] m.frames().contains_key(k) <==> keys@.contains(k),
            j <= keys.len(),
            forall|i: int| 0 <= i < j ==> trackers@.contains_key(#[trigger] keys@[i]),
            forall|k: u64|
                #[trigger] trackers@.contains_key(k) ==> m.frames().contains_key(k) && trackers@[k]
                    == m.frames()[k],
        decreases keys.len() - j,
    {
        proof {
            lemma_u64_keys_ordered();
        }
        let k = keys[j];
        proof {
            assert(keys@.contains(k));
            assert(m.frames().contains_key(k));
        }
        let ppn = m.frame_trackers.get(&k).unwrap().ppn;
        proof {
            assert(ppn == m.frames()[k].ppn);
        }
        match allocator.refcount_of(ppn) {
            Some(n) => {
                if n >= 255 {
                    return None;
                }
            },
            None => {
                return None;
            },
        }
        let t = FrameTracker::from_ppn(ppn, allocator);
        trackers.insert(k, t);
        j = j + 1;
    }
    proof {
        assert forall|k: u64| m.frames().contains_key(k) implies #[trigger] trackers@.contains_key(k) by {
            assert(keys@.contains(k));
            let i = choose|i: int| 0 <= i < keys@.len() && keys@[i] == k;
            assert(trackers@.contains_key(keys@[i]));
        }
        assert(trackers@ =~= m.frames());
    }
    Some(
        MmapManager {
            mmap_start: m.mmap_start,
            mmap_top: m.mmap_top,
            mmap_map: m.mmap_map.clone(),
            frame_trackers: trackers,
        },
    )
}

/// Whether page `v` is a touched page of the `mmap` region `pages` that the parent maps.
pub open spec fn touched(pt: Map<u64, u64>, pages: Map<u64, MmapPage>, v: u64) -> bool {
    pages.contains_key(v) && pages[v].valid && pt.contains_key(v)
}

/// Shares each touched page of the `mmap` region `m` that the parent has an entry for with
/// the child copy on write. `false` when one cannot be shared (the child maps it already),
/// the pages before it shared.
fn share_touched(
    parent: &mut PageTable,
    child: &mut PageTable,
    m: &MmapManager,
    allocator: &mut StackFrameAllocator,
) -> (r: bool)
    requires
        old(allocator)@.wf(),
    ensures
        r == forall|v: u64| #[trigger] touched(old(parent).entries(), m.pages(), v) ==> !old(child).is_mapped(v),
        final(allocator)@ == old(allocator)@,
        final(parent).root_ppn() == old(parent).root_ppn(),
        final(child).root_ppn() == old(child).root_ppn(),
        r ==> forall|v: u64|
            #[trigger] touched(old(parent).entries(), m.pages(), v) ==> page_shared(
                old(parent).entries(),
                final(parent).entries(),
                *old(child),
                *final(child),
                v,
            ),
        r ==> forall|v: u64|
            !#[trigger] touched(old(parent).entries(), m.pages(), v) ==> same_at(
                old(parent).entries(),
                final(parent).entries(),
                v,
            ) && same_at(old(child).entries(), final(child).entries(), v),
{
    proof {
        lemma_u64_keys_ordered();
    }
    let keys = keys_of(&m.mmap_map);
    let ghost pt0 = parent.entries();
    let ghost ct0 = *child;
    let ghost mut done: Set<u64> = Set::empty();
    let mut j: usize = 0;
    while j < keys.len()
        invariant
            pt0 == old(parent).entries(),
            ct0 == *old(child),
            allocator@ == old(allocator)@,
            allocator@.wf(),
            parent.root_ppn() == old(parent).root_ppn(),
            child.root_ppn() == old(child).root_ppn(),
            keys@.no_duplicates(),
            forall|k: u64| #[trigger] m.pages().contains_key(k) <==> keys@.contains(k),
            j <= keys.len(),
            forall|i: int| 0 <= i < j ==> done.contains(#[trigger] keys@[i]),
            forall|i: int| j <= i < keys@.len() ==> !done.contains(#[trigger] keys@[i]),
            forall|v: u64|
                done.contains(v) && #[trigger] touched(pt0, m.pages(), v) ==> page_shared(
                    pt0,
                    parent.entries(),
                    ct0,
                    *child,
                    v,
                ),
            forall|v: u64|
                !#[trigger] done.contains(v) ==> same_at(pt0, parent.entries(), v) && same_at(
                    ct0.entries(),
                    child.entries(),
                    v,
                ),
            forall|v: u64|
                !#[trigger] touched(pt0, m.pages(), v) ==> same_at(pt0, parent.entries(), v) && same_at(
                    ct0.entries(),
                    child.entries(),
                    v,
                ),
        decreases keys.len() - j,
    {
        proof {
            lemma_u64_keys_ordered();
        }
        let k = keys[j];
        proof {
            assert(keys@.contains(k));
            assert(m.pages().contains_key(k));
            assert(!done.contains(k));
        }
        let page = *m.mmap_map.get(&k).unwrap();
        let present = match parent.translate(VirtPageNum(k)) {
            Some(_) => true,
            None => false,
        };
        let ghost pt1 = parent.entries();
        let ghost ct1 = *child;
        proof {
            assert(same_at(pt0, pt1, k));
            assert(same_at(ct0.entries(), ct1.entries(), k));
        }
        if page.valid && present {
            match share_page(parent, child, k, false, allocator) {
                None => {
                    proof {
                        assert(touched(pt0, m.pages(), k));
                        assert(ct1.is_mapped(k));
                        assert(ct0.is_mapped(k));
                    }
                    return false;
                },
                Some(_) => {},
            }
        }
        proof {
            let d0 = done;
            done = done.insert(k);
            assert forall|i: int| j + 1 <= i < keys@.len() implies !done.contains(#[trigger] keys@[i]) by {
                assert(keys@[i] != keys@[j as int]);
                assert(!d0.contains(keys@[i]));
            }
            assert forall|v: u64| done.contains(v) && #[trigger] touched(pt0, m.pages(), v) implies page_shared(
                pt0,
                parent.entries(),
                ct0,
                *child,
                v,
            ) by {
                if v != k {
                    assert(d0.contains(v));
                    assert(page_shared(pt0, pt1, ct0, ct1, v));
                }
            }
            assert forall|v: u64| !#[trigger] done.contains(v) implies same_at(pt0, parent.entries(), v) && same_at(
                ct0.entries(),
                child.entries(),
                v,
            ) by {
                assert(!d0.contains(v));
            }
            assert forall|v: u64| !#[trigger] touched(pt0, m.pages(), v) implies same_at(
                pt0,
                parent.entries(),
                v,
            ) && same_at(ct0.entries(), child.entries(), v) by {
                if v != k {
                    assert(!d0.contains(v) || !touched(pt0, m.pages(), v));
                }
            }
        }
        j = j + 1;
    }
    proof {
        assert forall|v: u64| #[trigger] touched(pt0, m.pages(), v) implies done.contains(v) by {
            assert(keys@.contains(v));
            let i = choose|i: int| 0 <= i < keys@.len() && keys@[i] == v;
            assert(done.contains(keys@[i]));
        }
    }
    true
}

/// Maps each page of `[lo, hi)` that the parent has an entry for in the child to the same
/// frame with the same flags. `false` when the child maps one of them already (a fatal error), the pages before it mapped.
fn copy_mapped(parent: &PageTable, child: &mut PageTable, lo: u64, hi: u64) -> (r: bool)
    ensures
        final(child).root_ppn() == old(child).root_ppn(),
        r == forall|v: u64| #[trigger] to_share(parent.entries(), lo, hi, false, v) ==> !old(child).is_mapped(v),
        r ==> forall|v: u64|
            #[trigger] to_share(parent.entries(), lo, hi, false, v) ==> !old(child).is_mapped(v) && copied_at(
                parent.entries(),
                *final(child),
                v,
            ),
        r ==> forall|v: u64|
            !#[trigger] to_share(parent.entries(), lo, hi, false, v) ==> same_at(
                old(child).entries(),
                final(child).entries(),
                v,
            ),
{
    let ghost pt = parent.entries();
    let ghost ct0 = *child;
    let mut v = lo;
    while v < hi
        invariant
            lo <= v,
            v <= hi || v == lo,
            pt == parent.entries(),
            ct0 == *old(child),
            child.root_ppn() == old(child).root_ppn(),
            forall|w: u64|
                #[trigger] to_share(pt, lo, v, false, w) ==> !ct0.is_mapped(w) && copied_at(pt, *child, w),
            forall|w: u64| !#[trigger] to_share(pt, lo, v, false, w) ==> same_at(ct0.entries(), child.entries(), w),
        decreases hi - v,
    {
        match parent.translate(VirtPageNum(v)) {
            Some(e) => {
                let ghost c1 = *child;
                proof {
                    assert(!to_share(pt, lo, v, false, v));
                }
                match child.translate(VirtPageNum(v)) {
                    Some(c) => {
                        if c.is_valid() {
                            proof {
                                assert(same_at(ct0.entries(), child.entries(), v));
                                assert(ct0.is_mapped(v));
                                assert(to_share(pt, lo, hi, false, v));
                            }
                            return false;
                        }
                    },
                    None => {},
                }
                child.map(VirtPageNum(v), e.ppn(), e.flags());
                proof {
                    assert forall|w: u64| #[trigger] to_share(pt, lo, (v + 1) as u64, false, w) implies !ct0.is_mapped(w)
                        && copied_at(pt, *child, w) by {
                        if w != v {
                            assert(to_share(pt, lo, v, false, w));
                            assert(copied_at(pt, c1, w));
                        }
                    }
                    assert forall|w: u64| !#[trigger] to_share(pt, lo, (v + 1) as u64, false, w) implies same_at(
                        ct0.entries(),
                        child.entries(),
                        w,
                    ) by {
                        assert(!to_share(pt, lo, v, false, w));
                    }
                }
            },
            None => {
                proof {
                    assert forall|w: u64| #[trigger] to_share(pt, lo, (v + 1) as u64, false, w) implies !ct0.is_mapped(w)
                        && copied_at(pt, *child, w) by {
                        assert(to_share(pt, lo, v, false, w));
                    }
                    assert forall|w: u64| !#[trigger] to_share(pt, lo, (v + 1) as u64, false, w) implies same_at(
                        ct0.entries(),
                        child.entries(),
                        w,
                    ) by {
                        assert(!to_share(pt, lo, v, false, w));
                    }
                }
            },
        }
        v = v + 1;
    }
    proof {
        assert forall|w: u64| #![auto] to_share(pt, lo, hi, false, w) == to_share(pt, lo, v, false, w) by {}
    }
    true
}

/// Attaches once more, for process `pid` at time `now`, each segment that `trackers` holds
/// an attach of, and returns handles on the new attaches at the same addresses. `None` when
/// a segment is unknown or its count of attaches is at its limit (a fatal error).
fn attach_again(
    trackers: &BTreeMap<u64, SharedMemoryTracker>,
    manager: &mut SharedMemoryManager,
    pid: usize,
    now: usize,
) -> (r: Option<BTreeMap<u64, SharedMemoryTracker>>)
    ensures
        final(manager).areas().dom() == old(manager).areas().dom(),
        r matches Some(t) ==> t@ == trackers@,
        r is None ==> exists|va: u64|
            #[trigger] trackers@.contains_key(va) && (!old(manager).areas().contains_key(trackers@[va].key)
                || final(manager).areas()[trackers@[va].key].shmid_ds.shm_nattch == usize::MAX),
{
    proof {
        lemma_u64_keys_ordered();
    }
    let keys = keys_of(trackers);
    let mut copies: BTreeMap<u64, SharedMemoryTracker> = BTreeMap::new();
    let mut j: usize = 0;
    while j < keys.len()
        invariant
            manager.areas().dom() == old(manager).areas().dom(),
            forall|k: u64| #[trigger] trackers@.contains_key(k) <==> keys@.contains(k),
            j <= keys.len(),
            forall|i: int| 0 <= i < j ==> copies@.contains_key(#[trigger] keys@[i]),
            forall|k: u64|
                #[trigger] copies@.contains_key(k) ==> trackers@.contains_key(k) && copies@[k] == trackers@[k],
        decreases keys.len() - j,
    {
        proof {
            lemma_u64_keys_ordered();
        }
        let va = keys[j];
        proof {
            assert(keys@.contains(va));
            assert(trackers@.contains_key(va));
        }
        let key = trackers.get(&va).unwrap().key;
        if !manager.has_segment(key) {
            proof {
                assert(key == trackers@[va].key);
            }
            return None;
        }
        if manager.get_nattch(key) == usize::MAX {
            proof {
                assert(key == trackers@[va].key);
            }
            return None;
        }
        let t = SharedMemoryTracker::new(key, manager, pid, now);
        copies.insert(va, t);
        j = j + 1;
    }
    proof {
        assert forall|k: u64| trackers@.contains_key(k) implies #[trigger] copies@.contains_key(k) by {
            assert(keys@.contains(k));
            let i = choose|i: int| 0 <= i < keys@.len() && keys@[i] == k;
            assert(copies@.contains_key(keys@[i]));
        }
        assert(copies@ =~= trackers@);
    }
    Some(copies)
}

/// Pages that the child does not map keep in the parent the entries of `pt0`, after a step
/// that only adds pages to the child as before it.
proof fn lemma_unmapped_same(pt0: Map<u64, u64>, p0: Map<u64, u64>, p1: Map<u64, u64>, c0: PageTable, c1: PageTable)
    requires
        forall|v: u64| !#[trigger] c0.is_mapped(v) ==> same_at(pt0, p0, v),
        extends(p0, p1, c0, c1),
    ensures
        forall|v: u64| !#[trigger] c1.is_mapped(v) ==> same_at(pt0, p1, v),
{
    assert forall|v: u64| !#[trigger] c1.is_mapped(v) implies same_at(pt0, p1, v) by {
        assert(same_at(p0, p1, v));
        if c0.is_mapped(v) {
            assert(same_at(c0.entries(), c1.entries(), v));
        }
    }
}

/// Whether the child's area `a` is the parent's area `b` with its touched pages shared:
/// it keeps a reference to the frame of each page of `b` that the parent had an entry for in
/// `pt0`, and to no other, and each such page is shared copy on write (`pt1` the parent's
/// entries after, `ct` the child's table).
pub open spec fn lazily_shared(a: VmArea, b: VmArea, pt0: Map<u64, u64>, pt1: Map<u64, u64>, ct: PageTable) -> bool {
    &&& same_descriptor(a, b)
    &&& forall|v: u64| #[trigger] a.frames().contains_key(v) <==> b.holds(v) && pt0.contains_key(v)
    &&& forall|v: u64|
        #[trigger] b.holds(v) && pt0.contains_key(v) ==> a.frames()[v] == (FrameTracker {
            ppn: PhysPageNum(pte_ppn(pt0[v])),
        }) && cow_done(pt0, pt1, ct, v)
}

/// Whether child `c` holds the regions of parent `p` (entries `pt0` before the copy, `pt1`
/// after): the `mmap` region copied with its touched pages shared copy on write, the user
/// stack and the heap shared page by page, the shared memory segments mapped to the same
/// frames and attached again, and the bounds of each region.
pub open spec fn regions_copied(p: MemorySet, pt0: Map<u64, u64>, pt1: Map<u64, u64>, c: MemorySet) -> bool {
    &&& c.mmap_manager.mmap_start == p.mmap_manager.mmap_start
    &&& c.mmap_manager.mmap_top == p.mmap_manager.mmap_top
    &&& c.mmap_manager.pages() == p.mmap_manager.pages()
    &&& c.mmap_manager.frames() == p.mmap_manager.frames()
    &&& forall|v: u64| #[trigger] touched(pt0, p.mmap_manager.pages(), v) ==> cow_done(pt0, pt1, c.page_table, v)
    &&& lazily_shared(c.user_stack_areas, p.user_stack_areas, pt0, pt1, c.page_table)
    &&& lazily_shared(c.heap_areas, p.heap_areas, pt0, pt1, c.page_table)
    &&& c.user_stack_start == p.user_stack_start
    &&& c.user_stack_end == p.user_stack_end
    &&& c.brk_start == p.brk_start
    &&& c.brk == p.brk
    &&& c.shm_top == p.shm_top
    &&& c.shm_areas@.len() == p.shm_areas@.len()
    &&& forall|i: int| 0 <= i < c.shm_areas@.len() ==> same_descriptor(#[trigger] c.shm_areas@[i], p.shm_areas@[i])
    &&& forall|i: int, v: u64|
        #![trigger p.shm_areas@[i].holds(v)]
        0 <= i < p.shm_areas@.len() && p.shm_areas@[i].holds(v) && pt0.contains_key(v) ==> copied_at(
            pt0,
            c.page_table,
            v,
        )
    &&& c.shm_trackers@ == p.shm_trackers@
}

/// The pages that copying the space `us` (whose page table has the entries `pt`) into a child
/// maps, group `g` of them in the order they are mapped: each area (its pages), then the
/// touched pages of the `mmap` region, then those of the user stack and of the heap that
/// the parent has entries for, then those of each shared memory segment.
pub open spec fn space_group(us: MemorySet, pt: Map<u64, u64>, g: int, v: u64) -> bool {
    let n = us.vm_areas@.len() as int;
    if 0 <= g < n {
        us.vm_areas@[g].holds(v)
    } else if g == n {
        touched(pt, us.mmap_manager.pages(), v)
    } else if g == n + 1 {
        us.user_stack_areas.holds(v) && pt.contains_key(v)
    } else if g == n + 2 {
        us.heap_areas.holds(v) && pt.contains_key(v)
    } else if n + 3 <= g < n + 3 + us.shm_areas@.len() {
        us.shm_areas@[g - n - 3].holds(v) && pt.contains_key(v)
    } else {
        false
    }
}

/// The pages that copying `us` into a child in `layout` maps, in groups: the trampoline's
/// (0), the signal trampoline's (1), then those of [`space_group`] from 2 on.
pub open spec fn fork_group(us: MemorySet, pt: Map<u64, u64>, layout: UserLayout, g: int, v: u64) -> bool {
    if g == 0 {
        v == TRAMPOLINE / PAGE_SIZE
    } else if g == 1 {
        v == canonical_va(layout.signal_trampoline) / PAGE_SIZE
    } else {
        space_group(us, pt, g - 2, v)
    }
}

/// Whether two groups of pages that the copy maps share a page, so that the child would map
/// it twice.
pub open spec fn fork_clash(us: MemorySet, pt: Map<u64, u64>, layout: UserLayout) -> bool {
    exists|g1: int, g2: int, v: u64|
        0 <= g1 < g2 && #[trigger] fork_group(us, pt, layout, g1, v) && #[trigger] fork_group(us, pt, layout, g2, v)
}

/// Whether frame `p` cannot take one more reference in allocator `a`.
pub open spec fn frame_full(a: FrameAllocatorModel, p: u64) -> bool {
    !(a.allocated(p) && a.refs[p] < 255)
}

/// Whether a frame of a page of the parent (entries `pt`) or of its `mmap` region cannot
/// take one more reference in allocator `a`.
pub open spec fn parent_frame_full(us: MemorySet, pt: Map<u64, u64>, a: FrameAllocatorModel) -> bool {
    ||| exists|v: u64| #[trigger] pt.contains_key(v) && frame_full(a, pte_ppn(pt[v]))
    ||| exists|k: u64|
        #[trigger] us.mmap_manager.frames().contains_key(k) && frame_full(a, us.mmap_manager.frames()[k].ppn.0)
}

/// Whether an attach in `trackers` names a segment unknown to manager `m0`, or one whose
/// count of attaches is at its limit in `m1`.
pub open spec fn attach_fails(
    trackers: Map<u64, SharedMemoryTracker>,
    m0: SharedMemoryManager,
    m1: SharedMemoryManager,
) -> bool {
    exists|va: u64|
        #[trigger] trackers.contains_key(va) && (!m0.areas().contains_key(trackers[va].key)
            || m1.areas()[trackers[va].key].shmid_ds.shm_nattch == usize::MAX)
}

/// Whether copying the regions of `us` (entries `pt`) into a child whose table is `c`, the
/// allocator ending as `a`, the manager going from `m0` to `m1`, meets a fatal error: a
/// page of a region that the child maps already or that two regions share, a frame that
/// cannot take one more reference, an attach that cannot be recorded.
pub open spec fn regions_fail(
    us: MemorySet,
    pt: Map<u64, u64>,
    c: PageTable,
    a: FrameAllocatorModel,
    m0: SharedMemoryManager,
    m1: SharedMemoryManager,
) -> bool {
    let n = us.vm_areas@.len() as int;
    ||| exists|g: int, v: u64| n <= g && #[trigger] space_group(us, pt, g, v) && c.is_mapped(v)
    ||| exists|g1: int, g2: int, v: u64|
        n <= g1 < g2 && #[trigger] space_group(us, pt, g1, v) && #[trigger] space_group(us, pt, g2, v)
    ||| parent_frame_full(us, pt, a)
    ||| attach_fails(us.shm_trackers@, m0, m1)
}

/// Copies the regions of `user_space` into `child` (see `regions_copied`; `pt0` the parent's
/// entries that the pages the child does not map still have). `false` on a fatal error: a page mapped twice in the child, a frame with 255 references, an attach that the
/// manager cannot record.
#[verifier::rlimit(40)]
fn copy_regions(
    user_space: &mut MemorySet,
    child: &mut MemorySet,
    allocator: &mut StackFrameAllocator,
    manager: &mut SharedMemoryManager,
    pid: usize,
    now: usize,
    Ghost(pt0): Ghost<Map<u64, u64>>,
) -> (r: bool)
    requires
        old(user_space).wf(),
        old(child).wf(),
        old(child).shm_areas@.len() == 0,
        old(allocator)@.wf(),
        old(user_space).entries().dom() == pt0.dom(),
        forall|v: u64| !#[trigger] old(child).page_table.is_mapped(v) ==> same_at(pt0, old(user_space).entries(), v),
    ensures
        final(allocator)@.wf(),
        *final(user_space) == (MemorySet { page_table: final(user_space).page_table, ..*old(user_space) }),
        final(user_space).page_table.root_ppn() == old(user_space).page_table.root_ppn(),
        final(child).page_table.root_ppn() == old(child).page_table.root_ppn(),
        final(child).vm_areas@ == old(child).vm_areas@,
        final(child).wf(),
        final(manager).areas().dom() == old(manager).areas().dom(),
        r ==> extends(old(user_space).entries(), final(user_space).entries(), old(child).page_table, final(child).page_table),
        r ==> regions_copied(*old(user_space), pt0, final(user_space).entries(), *final(child)),
        r ==> forall|v: u64|
            #[trigger] final(child).page_table.is_mapped(v) ==> old(child).page_table.is_mapped(v) || exists|g: int|
                old(user_space).vm_areas@.len() <= g && #[trigger] space_group(*old(user_space), pt0, g, v),
        !r ==> regions_fail(
            *old(user_space),
            pt0,
            old(child).page_table,
            final(allocator)@,
            *old(manager),
            *final(manager),
        ),
{
    let ghost u0 = *user_space;
    let ghost p0 = user_space.entries();
    let ghost c0 = child.page_table;
    let ghost n0 = u0.vm_areas@.len() as int;
    // the mmap region
    let mm = match copy_mmap_manager(&user_space.mmap_manager, allocator) {
        Some(m) => m,
        None => {
            proof {
                assert(parent_frame_full(u0, pt0, allocator@));
            }
            return false;
        },
    };
    if !share_touched(&mut user_space.page_table, &mut child.page_table, &user_space.mmap_manager, allocator) {
        proof {
            let v = choose|v: u64| #[trigger] touched(p0, u0.mmap_manager.pages(), v) && c0.is_mapped(v);
            assert(p0.dom().contains(v));
            assert(space_group(u0, pt0, n0, v));
        }
        return false;
    }
    child.mmap_manager = mm;
    let ghost pa = user_space.entries();
    let ghost ca = child.page_table;
    proof {
        let sel = |v: u64| touched(p0, u0.mmap_manager.pages(), v);
        assert forall|v: u64| #[trigger] sel(v) implies page_shared(p0, pa, c0, ca, v) by {}
        assert forall|v: u64| !#[trigger] sel(v) implies same_at(p0, pa, v) && same_at(c0.entries(), ca.entries(), v) by {}
        lemma_shared_extends(p0, pa, c0, ca, sel);
        lemma_unmapped_same(pt0, p0, pa, c0, ca);
        assert forall|v: u64| #[trigger] ca.is_mapped(v) implies c0.is_mapped(v) || exists|g: int|
            n0 <= g < n0 + 1 && #[trigger] space_group(u0, pt0, g, v) by {
            if sel(v) {
                assert(p0.dom().contains(v));
                assert(space_group(u0, pt0, n0, v));
            } else {
                assert(same_at(c0.entries(), ca.entries(), v));
            }
        }
        assert forall|v: u64| #[trigger] touched(pt0, u0.mmap_manager.pages(), v) implies cow_done(pt0, pa, ca, v) by {
            assert(touched(p0, u0.mmap_manager.pages(), v));
            assert(page_shared(p0, pa, c0, ca, v));
            assert(same_at(pt0, p0, v));
        }
    }
    // the user stack
    let mut stack = VmArea::from_another(&user_space.user_stack_areas);
    let slo = stack.vpn_range.get_start().0;
    let shi = stack.vpn_range.get_end().0;
    if !share_range(
        &mut user_space.page_table,
        &mut child.page_table,
        slo,
        shi,
        false,
        true,
        &mut stack.frame_map,
        allocator,
    ) {
        proof {
            let v = choose|v: u64|
                #[trigger] to_share(pa, slo, shi, false, v) && share_fails(pa, ca, allocator@, true, v) && forall|w: u64|
                    to_share(pa, slo, v, false, w) ==> page_shared(pa, user_space.entries(), ca, child.page_table, w);
            assert(pa.dom().contains(v));
            assert(space_group(u0, pt0, n0 + 1, v));
            if ca.is_mapped(v) {
                if !c0.is_mapped(v) {
                    assert(ca.is_mapped(v));
                    let g = choose|g: int| n0 <= g < n0 + 1 && #[trigger] space_group(u0, pt0, g, v);
                    assert(space_group(u0, pt0, g, v) && space_group(u0, pt0, n0 + 1, v));
                }
            } else {
                assert(same_at(pt0, pa, v));
                assert(pt0.contains_key(v) && frame_full(allocator@, pte_ppn(pt0[v])));
                assert(parent_frame_full(u0, pt0, allocator@));
            }
        }
        return false;
    }
    let ghost pb = user_space.entries();
    let ghost cb = child.page_table;
    proof {
        let sel = |v: u64| to_share(pa, slo, shi, false, v);
        assert forall|v: u64| #[trigger] sel(v) implies page_shared(pa, pb, ca, cb, v) by {}
        assert forall|v: u64| !#[trigger] sel(v) implies same_at(pa, pb, v) && same_at(ca.entries(), cb.entries(), v) by {}
        lemma_shared_extends(pa, pb, ca, cb, sel);
        lemma_unmapped_same(pt0, pa, pb, ca, cb);
        assert forall|v: u64| #[trigger] cb.is_mapped(v) implies c0.is_mapped(v) || exists|g: int|
            n0 <= g < n0 + 2 && #[trigger] space_group(u0, pt0, g, v) by {
            if sel(v) {
                assert(pa.dom().contains(v));
                assert(space_group(u0, pt0, n0 + 1, v));
            } else {
                assert(same_at(ca.entries(), cb.entries(), v));
                if !c0.is_mapped(v) {
                    assert(ca.is_mapped(v));
                    let g = choose|g: int| n0 <= g < n0 + 1 && #[trigger] space_group(u0, pt0, g, v);
                    assert(n0 <= g < n0 + 2 && space_group(u0, pt0, g, v));
                }
            }
        }
        assert forall|v: u64| #[trigger] stack.frames().contains_key(v) <==> u0.user_stack_areas.holds(v) && pt0.contains_key(v) by {
            if to_share(pa, slo, shi, false, v) {
            } else {
                assert(same_frame_at(Map::<u64, FrameTracker>::empty(), stack.frames(), v));
            }
        }
        assert forall|v: u64| #[trigger] u0.user_stack_areas.holds(v) && pt0.contains_key(v) implies stack.frames()[v] == (FrameTracker {
            ppn: PhysPageNum(pte_ppn(pt0[v])),
        }) && cow_done(pt0, pb, cb, v) by {
            assert(to_share(pa, slo, shi, false, v));
            assert(page_shared(pa, pb, ca, cb, v));
            assert(same_at(pt0, pa, v));
        }
    }
    child.user_stack_areas = stack;
    child.user_stack_start = user_space.user_stack_start;
    child.user_stack_end = user_space.user_stack_end;
    // the heap
    let mut heap = VmArea::from_another(&user_space.heap_areas);
    let hlo = heap.vpn_range.get_start().0;
    let hhi = heap.vpn_range.get_end().0;
    if !share_range(
        &mut user_space.page_table,
        &mut child.page_table,
        hlo,
        hhi,
        false,
        true,
        &mut heap.frame_map,
        allocator,
    ) {
        proof {
            let v = choose|v: u64|
                #[trigger] to_share(pb, hlo, hhi, false, v) && share_fails(pb, cb, allocator@, true, v) && forall|w: u64|
                    to_share(pb, hlo, v, false, w) ==> page_shared(pb, user_space.entries(), cb, child.page_table, w);
            assert(pb.dom().contains(v));
            assert(space_group(u0, pt0, n0 + 2, v));
            if cb.is_mapped(v) {
                if !c0.is_mapped(v) {
                    assert(cb.is_mapped(v));
                    let g = choose|g: int| n0 <= g < n0 + 2 && #[trigger] space_group(u0, pt0, g, v);
                    assert(space_group(u0, pt0, g, v) && space_group(u0, pt0, n0 + 2, v));
                }
            } else {
                assert(same_at(pt0, pb, v));
                assert(pt0.contains_key(v) && frame_full(allocator@, pte_ppn(pt0[v])));
                assert(parent_frame_full(u0, pt0, allocator@));
            }
        }
        return false;
    }
    let ghost pc = user_space.entries();
    let ghost cc = child.page_table;
    proof {
        let sel = |v: u64| to_share(pb, hlo, hhi, false, v);
        assert forall|v: u64| #[trigger] sel(v) implies page_shared(pb, pc, cb, cc, v) by {}
        assert forall|v: u64| !#[trigger] sel(v) implies same_at(pb, pc, v) && same_at(cb.entries(), cc.entries(), v) by {}
        lemma_shared_extends(pb, pc, cb, cc, sel);
        lemma_unmapped_same(pt0, pb, pc, cb, cc);
        assert forall|v: u64| #[trigger] cc.is_mapped(v) implies c0.is_mapped(v) || exists|g: int|
            n0 <= g < n0 + 3 && #[trigger] space_group(u0, pt0, g, v) by {
            if sel(v) {
                assert(pb.dom().contains(v));
                assert(space_group(u0, pt0, n0 + 2, v));
            } else {
                assert(same_at(cb.entries(), cc.entries(), v));
                if !c0.is_mapped(v) {
                    assert(cb.is_mapped(v));
                    let g = choose|g: int| n0 <= g < n0 + 2 && #[trigger] space_group(u0, pt0, g, v);
                    assert(n0 <= g < n0 + 3 && space_group(u0, pt0, g, v));
                }
            }
        }
        assert forall|v: u64| #[trigger] heap.frames().contains_key(v) <==> u0.heap_areas.holds(v) && pt0.contains_key(v) by {
            if to_share(pb, hlo, hhi, false, v) {
            } else {
                assert(same_frame_at(Map::<u64, FrameTracker>::empty(), heap.frames(), v));
            }
        }
        assert forall|v: u64| #[trigger] u0.heap_areas.holds(v) && pt0.contains_key(v) implies heap.frames()[v] == (FrameTracker {
            ppn: PhysPageNum(pte_ppn(pt0[v])),
        }) && cow_done(pt0, pc, cc, v) by {
            assert(to_share(pb, hlo, hhi, false, v));
            assert(page_shared(pb, pc, cb, cc, v));
            assert(same_at(pt0, pb, v));
        }
    }
    child.heap_areas = heap;
    child.brk_start = user_space.brk_start;
    child.brk = user_space.brk;
    // the shared memory segments
    let ghost cs = *child;
    let n = user_space.shm_areas.len();
    let mut i: usize = 0;
    while i < n
        invariant
            n == u0.shm_areas@.len(),
            i <= n,
            *user_space == (MemorySet { page_table: user_space.page_table, ..u0 }),
            u0 == *old(user_space),
            user_space.page_table.root_ppn() == old(user_space).page_table.root_ppn(),
            user_space.entries() == pc,
            allocator@.wf(),
            manager.areas().dom() == old(manager).areas().dom(),
            cs.vm_areas@ == old(child).vm_areas@,
            cs.page_table.root_ppn() == old(child).page_table.root_ppn(),
            cs.wf(),
            *child == (MemorySet { page_table: child.page_table, shm_areas: child.shm_areas, ..cs }),
            child.page_table.root_ppn() == cs.page_table.root_ppn(),
            child.shm_areas@.len() == i,
            forall|j: int| 0 <= j < i ==> same_descriptor(#[trigger] child.shm_areas@[j], u0.shm_areas@[j]),
            forall|j: int, v: u64|
                #![trigger u0.shm_areas@[j].holds(v)]
                0 <= j < i && u0.shm_areas@[j].holds(v) && pt0.contains_key(v) ==> copied_at(pt0, child.page_table, v),
            extends(pc, pc, cc, child.page_table),
            forall|v: u64| !#[trigger] child.page_table.is_mapped(v) ==> same_at(pt0, pc, v),
            pc.dom() == pt0.dom(),
            c0 == old(child).page_table,
            n0 == u0.vm_areas@.len(),
            *manager == *old(manager),
            forall|v: u64| #[trigger] child.page_table.is_mapped(v) ==> c0.is_mapped(v) || exists|g: int|
                n0 <= g < n0 + 3 + i && #[trigger] space_group(u0, pt0, g, v),
        decreases n - i,
    {
        let area = VmArea::from_another(&user_space.shm_areas[i]);
        let lo = area.vpn_range.get_start().0;
        let hi = area.vpn_range.get_end().0;
        let ghost cp = child.page_table;
        if !copy_mapped(&user_space.page_table, &mut child.page_table, lo, hi) {
            proof {
                let v = choose|v: u64| #[trigger] to_share(pc, lo, hi, false, v) && cp.is_mapped(v);
                assert(pc.dom().contains(v));
                assert(space_group(u0, pt0, n0 + 3 + i, v));
                if !c0.is_mapped(v) {
                    let g = choose|g: int| n0 <= g < n0 + 3 + i && #[trigger] space_group(u0, pt0, g, v);
                    assert(space_group(u0, pt0, g, v) && space_group(u0, pt0, n0 + 3 + i, v));
                }
            }
            return false;
        }
        proof {
            let cn = child.page_table;
            let sel = |v: u64| to_share(pc, lo, hi, false, v);
            assert forall|v: u64| #[trigger] sel(v) implies !cp.is_mapped(v) && copied_at(pc, cn, v) by {}
            assert forall|v: u64| !#[trigger] sel(v) implies same_at(cp.entries(), cn.entries(), v) by {}
            lemma_copied_extends(pc, cp, cn, sel);
            lemma_extends_trans(pc, pc, pc, cc, cp, cn);
            lemma_unmapped_same(pt0, pc, pc, cp, cn);
            assert forall|v: u64| #[trigger] cn.is_mapped(v) implies c0.is_mapped(v) || exists|g: int|
                n0 <= g < n0 + 3 + i + 1 && #[trigger] space_group(u0, pt0, g, v) by {
                if sel(v) {
                    assert(pc.dom().contains(v));
                    assert(space_group(u0, pt0, n0 + 3 + i, v));
                } else {
                    assert(same_at(cp.entries(), cn.entries(), v));
                    if !c0.is_mapped(v) {
                        assert(cp.is_mapped(v));
                        let g = choose|g: int| n0 <= g < n0 + 3 + i && #[trigger] space_group(u0, pt0, g, v);
                        assert(n0 <= g < n0 + 3 + i + 1 && space_group(u0, pt0, g, v));
                    }
                }
            }
            assert forall|j: int, v: u64|
                #![trigger u0.shm_areas@[j].holds(v)]
                0 <= j < i + 1 && u0.shm_areas@[j].holds(v) && pt0.contains_key(v) implies copied_at(pt0, cn, v) by {
                if j < i {
                    lemma_copied_kept(pt0, pc, pc, cp, cn, v);
                } else {
                    assert(to_share(pc, lo, hi, false, v));
                    assert(same_at(pt0, pc, v));
                }
            }
        }
        child.shm_areas.push(area);
        i = i + 1;
    }
    child.shm_top = user_space.shm_top;
    match attach_again(&user_space.shm_trackers, manager, pid, now) {
        Some(t) => {
            child.shm_trackers = t;
        },
        None => {
            proof {
                assert(attach_fails(u0.shm_trackers@, *old(manager), *manager));
            }
            return false;
        },
    }
    proof {
        let cd = child.page_table;
        lemma_extends_trans(pb, pc, pc, cb, cc, cd);
        lemma_extends_trans(pa, pb, pc, ca, cb, cd);
        lemma_extends_trans(p0, pa, pc, c0, ca, cd);
        assert forall|v: u64| #[trigger] touched(pt0, u0.mmap_manager.pages(), v) implies cow_done(pt0, pc, cd, v) by {
            lemma_cow_kept(pt0, pa, pc, ca, cd, v);
        }
        assert forall|v: u64| #[trigger] u0.user_stack_areas.holds(v) && pt0.contains_key(v) implies cow_done(pt0, pc, cd, v) by {
            lemma_cow_kept(pt0, pb, pc, cb, cd, v);
        }
        assert forall|v: u64| #[trigger] u0.heap_areas.holds(v) && pt0.contains_key(v) implies cow_done(pt0, pc, cd, v) by {
            lemma_cow_kept(pt0, pc, pc, cc, cd, v);
        }
    }
    true
}

/// What stops the copy of the regions of a space (whose other parts are those of `us0`)
/// into a child that maps only pages of the trampolines and the areas is a fatal error of
/// the whole copy.
proof fn lemma_regions_fail(
    us0: MemorySet,
    u1: MemorySet,
    pt0: Map<u64, u64>,
    layout: UserLayout,
    c: PageTable,
    a: FrameAllocatorModel,
    m0: SharedMemoryManager,
    m1: SharedMemoryManager,
)
    requires
        u1 == (MemorySet { page_table: u1.page_table, ..us0 }),
        regions_fail(u1, pt0, c, a, m0, m1),
        forall|v: u64| #[trigger] c.is_mapped(v) ==> exists|g: int|
            0 <= g < 2 + us0.vm_areas@.len() && #[trigger] fork_group(us0, pt0, layout, g, v),
    ensures
        fork_clash(us0, pt0, layout) || parent_frame_full(us0, pt0, a) || attach_fails(us0.shm_trackers@, m0, m1),
{
    let n = us0.vm_areas@.len() as int;
    assert forall|g: int, v: u64| #[trigger] space_group(u1, pt0, g, v) == space_group(us0, pt0, g, v) by {}
    if exists|g: int, v: u64| n <= g && #[trigger] space_group(u1, pt0, g, v) && c.is_mapped(v) {
        let (g, v) = choose|g: int, v: u64| n <= g && #[trigger] space_group(u1, pt0, g, v) && c.is_mapped(v);
        let g1 = choose|g1: int| 0 <= g1 < 2 + n && #[trigger] fork_group(us0, pt0, layout, g1, v);
        assert(fork_group(us0, pt0, layout, g1, v) && fork_group(us0, pt0, layout, g + 2, v));
    } else if exists|g1: int, g2: int, v: u64|
        n <= g1 < g2 && #[trigger] space_group(u1, pt0, g1, v) && #[trigger] space_group(u1, pt0, g2, v) {
        let (g1, g2, v) = choose|g1: int, g2: int, v: u64|
            n <= g1 < g2 && #[trigger] space_group(u1, pt0, g1, v) && #[trigger] space_group(u1, pt0, g2, v);
        assert(fork_group(us0, pt0, layout, g1 + 2, v) && fork_group(us0, pt0, layout, g2 + 2, v));
    }
}

/// The frames that the trap context areas among the first `i` of `areas` take.
pub open spec fn trap_frames(areas: Seq<VmArea>, i: int) -> int
    decreases i,
{
    if i <= 0 {
        0
    } else {
        trap_frames(areas, i - 1) + if areas[i - 1].area_type == VmAreaType::TrapContext {
            areas[i - 1].end() - areas[i - 1].start()
        } else {
            0
        }
    }
}

/// The frames of the trap context areas among the first `i` never exceed those among the
/// first `j`, for `i <= j`, and are never negative.
proof fn lemma_trap_frames_grow(areas: Seq<VmArea>, i: int, j: int)
    requires
        0 <= i <= j <= areas.len(),
        forall|k: int| 0 <= k < areas.len() ==> (#[trigger] areas[k]).start() <= areas[k].end(),
    ensures
        0 <= trap_frames(areas, i) <= trap_frames(areas, j),
    decreases j,
{
    if i < j {
        lemma_trap_frames_grow(areas, i, j - 1);
        assert(areas[j - 1].start() <= areas[j - 1].end());
    } else if i > 0 {
        lemma_trap_frames_grow(areas, i - 1, i - 1);
        assert(areas[i - 1].start() <= areas[i - 1].end());
    }
}

/// Whether the child can get a copy of area `a`: a `Framed` trap context area, a program
/// area or a user stack area.
pub open spec fn area_copyable(a: VmArea) -> bool {
    (a.area_type == VmAreaType::TrapContext && a.map_type is Framed) || shared_kind(a.area_type)
}

/// Whether copying the space `us` into a child in `layout` meets a fatal error, the
/// allocator going from `a0` to `a1` and the manager from `m0` to `m1`: frames are short for
/// the root table and the trap contexts, an address of the trampolines is not page aligned,
/// an area is of another kind, a page of a program or stack area has no entry, two groups
/// of pages to map share one, a frame cannot take one more reference, an attach cannot be
/// recorded.
pub open spec fn fork_fails(
    us: MemorySet,
    layout: UserLayout,
    a0: FrameAllocatorModel,
    a1: FrameAllocatorModel,
    m0: SharedMemoryManager,
    m1: SharedMemoryManager,
) -> bool {
    let pt = us.entries();
    let n = us.vm_areas@.len() as int;
    ||| free_frames(a0) < 1 + trap_frames(us.vm_areas@, n)
    ||| (layout.strampoline % 0x100_0000_0000_0000) % PAGE_SIZE != 0
    ||| canonical_va(layout.signal_trampoline) % PAGE_SIZE != 0
    ||| (layout.user_sigreturn % 0x100_0000_0000_0000) % PAGE_SIZE != 0
    ||| exists|i: int| 0 <= i < n && !area_copyable(#[trigger] us.vm_areas@[i])
    ||| exists|i: int, v: u64|
        0 <= i < n && shared_kind(us.vm_areas@[i].area_type) && #[trigger] us.vm_areas@[i].holds(v) && !pt.contains_key(v)
    ||| fork_clash(us, pt, layout)
    ||| parent_frame_full(us, pt, a1)
    ||| attach_fails(us.shm_trackers@, m0, m1)
}

impl MemorySet {
    /// A copy of the address space `user_space` for a child process: the trampolines are
    /// mapped afresh; trap context areas get frames of their own (copying their bytes from
    /// the parent's is a write to physical memory that the caller makes); the pages of the
    /// program and stack areas, and the touched pages of the `mmap` region, of the user
    /// stack and of the heap are shared copy on write (write access taken away in both, the
    /// child keeping a reference to each frame of an area); the `mmap` region is copied
    /// with a reference to each of its frames; shared memory segments are mapped to the
    /// same frames and attached once more (for process `pid` at time `now`). `None` on a fatal error: an area of another kind, a program or stack
    /// page without an entry, a page mapped twice in the child, a frame with 255 references,
    /// frames short, a misaligned trampoline, an attach that the manager cannot record.
    pub fn from_copy_on_write(
        user_space: &mut MemorySet,
        layout: UserLayout,
        allocator: &mut StackFrameAllocator,
        manager: &mut SharedMemoryManager,
        pid: usize,
        now: usize,
    ) -> (r: Option<MemorySet>)
        requires
            old(user_space).wf(),
            old(allocator)@.wf(),
        ensures
            final(allocator)@.wf(),
            *final(user_space) == (MemorySet { page_table: final(user_space).page_table, ..*old(user_space) }),
            final(user_space).page_table.root_ppn() == old(user_space).page_table.root_ppn(),
            final(manager).areas().dom() == old(manager).areas().dom(),
            r matches Some(c) ==> {
                &&& c.wf()
                &&& final(user_space).entries().dom() == old(user_space).entries().dom()
                &&& forall|v: u64|
                    !#[trigger] c.page_table.is_mapped(v) ==> same_at(
                        old(user_space).entries(),
                        final(user_space).entries(),
                        v,
                    )
                &&& c.vm_areas@.len() == old(user_space).vm_areas@.len()
                &&& forall|i: int|
                    0 <= i < c.vm_areas@.len() ==> same_descriptor(
                        #[trigger] c.vm_areas@[i],
                        old(user_space).vm_areas@[i],
                    )
                &&& forall|i: int|
                    0 <= i < c.vm_areas@.len() && shared_kind(old(user_space).vm_areas@[i].area_type)
                        ==> frames_shared(#[trigger] c.vm_areas@[i], old(user_space).vm_areas@[i], old(user_space).entries())
                &&& forall|i: int, v: u64|
                    #![trigger old(user_space).vm_areas@[i].holds(v)]
                    0 <= i < c.vm_areas@.len() && shared_kind(old(user_space).vm_areas@[i].area_type)
                        && old(user_space).vm_areas@[i].holds(v) ==> cow_shared(
                        old(user_space).entries(),
                        final(user_space).entries(),
                        c.entries(),
                        v,
                    )
                &&& regions_copied(*old(user_space), old(user_space).entries(), final(user_space).entries(), c)
            },
        r is None ==> fork_fails(
            *old(user_space),
            layout,
            old(allocator)@,
            final(allocator)@,
            *old(manager),
            *final(manager),
        ),
    {
        proof {
            lemma_u64_keys_ordered();
        }
        let ghost fa0 = allocator@;
        proof {
            assert forall|k: int| 0 <= k < old(user_space).vm_areas@.len() implies (#[trigger] old(
                user_space,
            ).vm_areas@[k]).start() <= old(user_space).vm_areas@[k].end() by {
                assert(area_ok(old(user_space).vm_areas@[k]));
            }
            lemma_trap_frames_grow(old(user_space).vm_areas@, 0, old(user_space).vm_areas@.len() as int);
        }
        if allocator.free_count() < 1 {
            return None;
        }
        let mut child = MemorySet::new_bare(allocator);
        proof {
            assert(free_frames(allocator@) == free_frames(fa0) - 1);
        }
        if (layout.strampoline % 0x100_0000_0000_0000) % PAGE_SIZE != 0 {
            return None;
        }
        let ghost ce1 = child.entries();
        child.map_trampoline(layout.strampoline);
        proof {
            assert forall|v: u64| #[trigger] child.page_table.is_mapped(v) implies v == TRAMPOLINE / PAGE_SIZE by {
                assert(child.entries().contains_key(v));
                if v != TRAMPOLINE / PAGE_SIZE {
                    assert(ce1.contains_key(v));
                }
            }
        }
        let sig = VirtAddr::from_u64(layout.signal_trampoline).0;
        if sig % PAGE_SIZE != 0 || (layout.user_sigreturn % 0x100_0000_0000_0000) % PAGE_SIZE != 0 {
            return None;
        }
        if !child.pages_unmapped(sig / PAGE_SIZE, sig / PAGE_SIZE + 1) {
            proof {
                let v = choose|v: u64| sig / PAGE_SIZE <= v < sig / PAGE_SIZE + 1 && #[trigger] child.page_table.is_mapped(v);
                assert(v == TRAMPOLINE / PAGE_SIZE);
                let pt = old(user_space).entries();
                assert(fork_group(*old(user_space), pt, layout, 0, v) && fork_group(*old(user_space), pt, layout, 1, v));
                assert(fork_clash(*old(user_space), pt, layout));
            }
            return None;
        }
        let ghost ce2 = child.entries();
        child.map_signal_trampoline(layout.signal_trampoline, layout.user_sigreturn);
        let ghost pt0 = user_space.entries();
        let ghost us0 = *user_space;
        proof {
            assert forall|v: u64| #[trigger] child.page_table.is_mapped(v) implies exists|g: int|
                0 <= g < 2 && #[trigger] fork_group(us0, pt0, layout, g, v) by {
                assert(child.entries().contains_key(v));
                if v != sig / PAGE_SIZE {
                    assert(ce2.contains_key(v) && ce2[v] == child.entries()[v]);
                    assert(child.page_table.is_mapped(v) == (ce2.contains_key(v) && pte_valid(ce2[v])));
                    assert(fork_group(us0, pt0, layout, 0, v));
                } else {
                    assert(fork_group(us0, pt0, layout, 1, v));
                }
            }
        }
        let n = user_space.vm_areas.len();
        let mut i: usize = 0;
        while i < n
            invariant
                n == us0.vm_areas@.len(),
                i <= n,
                us0 == *old(user_space),
                pt0 == us0.entries(),
                us0.wf(),
                *user_space == (MemorySet { page_table: user_space.page_table, ..us0 }),
                user_space.page_table.root_ppn() == us0.page_table.root_ppn(),
                allocator@.wf(),
                child.wf(),
                child.vm_areas@.len() == i,
                forall|j: int| 0 <= j < i ==> same_descriptor(#[trigger] child.vm_areas@[j], us0.vm_areas@[j]),
                forall|j: int|
                    0 <= j < i && shared_kind(us0.vm_areas@[j].area_type) ==> frames_shared(
                        #[trigger] child.vm_areas@[j],
                        us0.vm_areas@[j],
                        pt0,
                    ),
                forall|j: int, v: u64|
                    #![trigger us0.vm_areas@[j].holds(v)]
                    0 <= j < i && shared_kind(us0.vm_areas@[j].area_type) && us0.vm_areas@[j].holds(v)
                        ==> cow_shared(pt0, user_space.entries(), child.entries(), v) && child.page_table.is_mapped(v),
                forall|v: u64| !#[trigger] child.page_table.is_mapped(v) ==> same_at(pt0, user_space.entries(), v),
                user_space.entries().dom() == pt0.dom(),
                child.shm_areas@.len() == 0,
                *manager == *old(manager),
                fa0 == old(allocator)@,
                free_frames(allocator@) == free_frames(fa0) - 1 - trap_frames(us0.vm_areas@, i as int),
                forall|v: u64| #[trigger] child.page_table.is_mapped(v) ==> exists|g: int|
                    0 <= g < 2 + i && #[trigger] fork_group(us0, pt0, layout, g, v),
            decreases n - i,
        {
            let mut new_area = VmArea::from_another(&user_space.vm_areas[i]);
            let lo = new_area.vpn_range.get_start().0;
            let hi = new_area.vpn_range.get_end().0;
            proof {
                assert(area_ok(us0.vm_areas@[i as int]));
            }
            match new_area.area_type {
                VmAreaType::TrapContext => {
                    match new_area.map_type {
                        MapType::Framed => {},
                        _ => {
                            proof {
                                assert(!area_copyable(us0.vm_areas@[i as int]));
                            }
                            return None;
                        },
                    }
                    if !child.pages_unmapped(lo, hi) {
                        proof {
                            let v = choose|v: u64| lo <= v < hi && #[trigger] child.page_table.is_mapped(v);
                            let g = choose|g: int| 0 <= g < 2 + i && #[trigger] fork_group(us0, pt0, layout, g, v);
                            assert(fork_group(us0, pt0, layout, 2 + i, v));
                            assert(fork_group(us0, pt0, layout, g, v) && fork_group(us0, pt0, layout, 2 + i, v));
                        }
                        return None;
                    }
                    if allocator.free_count() < (hi - lo) as u128 {
                        proof {
                            assert(trap_frames(us0.vm_areas@, i + 1) == trap_frames(us0.vm_areas@, i as int) + (hi - lo));
                            assert forall|k: int| 0 <= k < us0.vm_areas@.len() implies (#[trigger] us0.vm_areas@[k]).start()
                                <= us0.vm_areas@[k].end() by {
                                assert(area_ok(us0.vm_areas@[k]));
                            }
                            lemma_trap_frames_grow(us0.vm_areas@, i + 1, n as int);
                        }
                        return None;
                    }
                    let ghost c0 = child;
                    let ghost a0 = allocator@;
                    let ghost na = new_area;
                    child.insert(new_area, allocator);
                    proof {
                        assert(na.vpn_range == us0.vm_areas@[i as int].vpn_range);
                        assert(trap_frames(us0.vm_areas@, i + 1) == trap_frames(us0.vm_areas@, i as int) + (hi - lo));
                        assert forall|v: u64| #[trigger] child.page_table.is_mapped(v) implies exists|g: int|
                            0 <= g < 2 + i + 1 && #[trigger] fork_group(us0, pt0, layout, g, v) by {
                            if na.holds(v) {
                                assert(fork_group(us0, pt0, layout, 2 + i, v));
                            } else {
                                assert(child.entries().contains_key(v) == c0.entries().contains_key(v));
                                assert(c0.page_table.is_mapped(v));
                                let g = choose|g: int| 0 <= g < 2 + i && #[trigger] fork_group(us0, pt0, layout, g, v);
                                assert(0 <= g < 2 + i + 1 && fork_group(us0, pt0, layout, g, v));
                            }
                        }
                        assert forall|j: int, v: u64|
                            #![trigger us0.vm_areas@[j].holds(v)]
                            0 <= j < i + 1 && shared_kind(us0.vm_areas@[j].area_type) && us0.vm_areas@[j].holds(v)
                                implies cow_shared(pt0, user_space.entries(), child.entries(), v) && child.page_table.is_mapped(
                                v,
                            ) by {
                            assert(j < i);
                            assert(c0.page_table.is_mapped(v));
                            assert(!(lo <= v < hi));
                            assert(!na.holds(v));
                            assert(child.entries().contains_key(v) == c0.entries().contains_key(v));
                        }
                        assert forall|v: u64| !#[trigger] child.page_table.is_mapped(v) implies same_at(
                            pt0,
                            user_space.entries(),
                            v,
                        ) by {
                            if na.holds(v) {
                                assert(child.entries().contains_key(v));
                            } else {
                                assert(child.entries().contains_key(v) == c0.entries().contains_key(v));
                                assert(!c0.page_table.is_mapped(v));
                            }
                        }
                        assert(child.vm_areas@[i as int] == child.vm_areas@.last());
                        assert forall|j: int| 0 <= j < i implies #[trigger] child.vm_areas@[j] == c0.vm_areas@[j] by {
                            assert(child.vm_areas@.drop_last()[j] == child.vm_areas@[j]);
                        }
                    }
                },
                VmAreaType::UserStack | VmAreaType::Elf => {
                    let ghost c0 = child;
                    let ghost u0 = user_space.entries();
                    if !share_range(
                        &mut user_space.page_table,
                        &mut child.page_table,
                        lo,
                        hi,
                        true,
                        true,
                        &mut new_area.frame_map,
                        allocator,
                    ) {
                        proof {
                            let v = choose|v: u64|
                                #[trigger] to_share(u0, lo, hi, true, v) && share_fails(u0, c0.page_table, allocator@, true, v)
                                    && forall|w: u64|
                                    to_share(u0, lo, v, true, w) ==> page_shared(
                                        u0,
                                        user_space.entries(),
                                        c0.page_table,
                                        child.page_table,
                                        w,
                                    );
                            assert(us0.vm_areas@[i as int].holds(v));
                            if !u0.contains_key(v) {
                                assert(!pt0.dom().contains(v));
                            } else if c0.page_table.is_mapped(v) {
                                let g = choose|g: int| 0 <= g < 2 + i && #[trigger] fork_group(us0, pt0, layout, g, v);
                                assert(fork_group(us0, pt0, layout, g, v) && fork_group(us0, pt0, layout, 2 + i, v));
                            } else {
                                assert(same_at(pt0, u0, v));
                                assert(pt0.contains_key(v) && frame_full(allocator@, pte_ppn(pt0[v])));
                                assert(parent_frame_full(us0, pt0, allocator@));
                            }
                        }
                        return None;
                    }
                    proof {
                        assert(trap_frames(us0.vm_areas@, i + 1) == trap_frames(us0.vm_areas@, i as int));
                        assert forall|v: u64| #[trigger] child.page_table.is_mapped(v) implies exists|g: int|
                            0 <= g < 2 + i + 1 && #[trigger] fork_group(us0, pt0, layout, g, v) by {
                            if to_share(u0, lo, hi, true, v) {
                                assert(fork_group(us0, pt0, layout, 2 + i, v));
                            } else {
                                assert(same_at(c0.entries(), child.entries(), v));
                                assert(c0.page_table.is_mapped(v));
                                let g = choose|g: int| 0 <= g < 2 + i && #[trigger] fork_group(us0, pt0, layout, g, v);
                                assert(0 <= g < 2 + i + 1 && fork_group(us0, pt0, layout, g, v));
                            }
                        }
                        let sel = |v: u64| to_share(u0, lo, hi, true, v);
                        assert forall|v: u64| #[trigger] sel(v) implies page_shared(
                            u0,
                            user_space.entries(),
                            c0.page_table,
                            child.page_table,
                            v,
                        ) by {}
                        assert forall|v: u64| !#[trigger] sel(v) implies same_at(u0, user_space.entries(), v) && same_at(
                            c0.entries(),
                            child.entries(),
                            v,
                        ) by {}
                        lemma_shared_extends(u0, user_space.entries(), c0.page_table, child.page_table, sel);
                        assert forall|v: u64| #[trigger] us0.vm_areas@[i as int].holds(v) implies cow_shared(
                            pt0,
                            user_space.entries(),
                            child.entries(),
                            v,
                        ) && child.page_table.is_mapped(v) && new_area.frames().contains_key(v)
                            && new_area.frames()[v] == (FrameTracker { ppn: PhysPageNum(pte_ppn(pt0[v])) }) by {
                            assert(to_share(u0, lo, hi, true, v));
                            assert(!c0.page_table.is_mapped(v));
                            assert(same_at(pt0, u0, v));
                        }
                        assert forall|j: int, v: u64|
                            #![trigger us0.vm_areas@[j].holds(v)]
                            0 <= j < i && shared_kind(us0.vm_areas@[j].area_type) && us0.vm_areas@[j].holds(v)
                                implies cow_shared(pt0, user_space.entries(), child.entries(), v) && child.page_table.is_mapped(
                                v,
                            ) by {
                            assert(c0.page_table.is_mapped(v));
                            if to_share(u0, lo, hi, true, v) {
                                assert(!c0.page_table.is_mapped(v));
                            }
                            assert(same_at(u0, user_space.entries(), v));
                            assert(same_at(c0.entries(), child.entries(), v));
                        }
                        assert forall|v: u64| !#[trigger] child.page_table.is_mapped(v) implies same_at(
                            pt0,
                            user_space.entries(),
                            v,
                        ) by {
                            if to_share(u0, lo, hi, true, v) {
                                assert(page_shared(u0, user_space.entries(), c0.page_table, child.page_table, v));
                            } else {
                                assert(same_at(c0.entries(), child.entries(), v));
                                assert(!c0.page_table.is_mapped(v));
                                assert(same_at(u0, user_space.entries(), v));
                            }
                        }
                    }
                    let ghost c1 = child;
                    child.push_mapped_area(new_area);
                    proof {
                        assert forall|j: int| 0 <= j < i implies #[trigger] child.vm_areas@[j] == c1.vm_areas@[j] by {}
                        assert(child.vm_areas@[i as int] == new_area);
                    }
                },
                _ => {
                    proof {
                        assert(!area_copyable(us0.vm_areas@[i as int]));
                    }
                    return None;
                },
            }
            i = i + 1;
        }
        let ghost p1 = user_space.entries();
        let ghost c1 = child.page_table;
        let ghost u1 = *user_space;
        let ghost cp1 = child.page_table;
        if !copy_regions(user_space, &mut child, allocator, manager, pid, now, Ghost(pt0)) {
            proof {
                lemma_regions_fail(us0, u1, pt0, layout, cp1, allocator@, *old(manager), *manager);
            }
            return None;
        }
        proof {
            assert forall|j: int, v: u64|
                #![trigger us0.vm_areas@[j].holds(v)]
                0 <= j < n && shared_kind(us0.vm_areas@[j].area_type) && us0.vm_areas@[j].holds(v) implies cow_shared(
                    pt0,
                    user_space.entries(),
                    child.entries(),
                    v,
                ) by {
                assert(cow_done(pt0, p1, c1, v));
                lemma_cow_kept(pt0, p1, user_space.entries(), c1, child.page_table, v);
            }
            lemma_unmapped_same(pt0, p1, user_space.entries(), c1, child.page_table);
        }
        Some(child)
    }
}

} // verus!
