//! The pages that `mmap` reserved in an address space; each is mapped on its first touch.
use vstd::prelude::*;
use std::collections::BTreeMap;
use crate::address::{canonical_va, VPNRange, VirtAddr, VirtPageNum, PAGE_SIZE};
use crate::flags::{MmapFlags, MmapProts};
use crate::frame_allocator::FrameTracker;

verus! {

/// How the first touch of a reserved page fills its frame.
#[derive(Copy, Clone, PartialEq, Eq, Debug, Structural)]
pub enum PageFill {
    /// With zeros.
    Zero,
    /// With the bytes of file `file` from offset `offset` on.
    File { file: u64, offset: usize },
}

/// A page reserved by `mmap`: how it was asked for, and whether it has been filled yet.
#[derive(Copy, Clone, PartialEq, Eq, Debug, Structural)]
pub struct MmapPage {
    /// The page.
    pub vpn: VirtPageNum,
    /// Whether the page has been mapped and filled.
    pub valid: bool,
    /// The protection asked for.
    pub prot: MmapProts,
    /// How the mapping is shared.
    pub flags: MmapFlags,
    /// Handle on the file mapped, if any.
    pub file: Option<u64>,
    /// Offset in the file of the first byte of the page.
    pub offset: usize,
}

impl MmapPage {
    /// A reserved page.
    pub fn new(
        vpn: VirtPageNum,
        prot: MmapProts,
        flags: MmapFlags,
        valid: bool,
        file: Option<u64>,
        offset: usize,
    ) -> (r: MmapPage)
        ensures
            r == (MmapPage { vpn, valid, prot, flags, file, offset }),
    {
        MmapPage { vpn, prot, flags, valid, file, offset }
    }

    /// Whether the page is anonymous (filled with zeros rather than from a file).
    pub open spec fn anonymous(&self) -> bool {
        self.flags.bits & MmapFlags::MAP_ANONYMOUS == MmapFlags::MAP_ANONYMOUS
    }

    /// Marks the page filled, and says how its frame is to be filled: with zeros for an
    /// anonymous page, else from its file at its offset. It is a fatal error on a page
    /// that is neither anonymous nor backed by a file.
    pub fn lazy_map_page(&mut self) -> (r: PageFill)
        requires
            old(self).anonymous() || old(self).file is Some,
        ensures
            *final(self) == (MmapPage { valid: true, ..*old(self) }),
            r == (if old(self).anonymous() {
                PageFill::Zero
            } else {
                PageFill::File { file: old(self).file->0, offset: old(self).offset }
            }),
    {
        let fill = if self.flags.contains(MmapFlags::MAP_ANONYMOUS) {
            PageFill::Zero
        } else {
            match self.file {
                Some(file) => PageFill::File { file, offset: self.offset },
                None => PageFill::Zero,
            }
        };
        self.valid = true;
        fill
    }

    /// Where the page is written back to: its file, at its offset. It is a fatal error on
    /// a page with no file.
    pub fn write_back(&self) -> (r: (u64, usize))
        requires
            self.file is Some,
        ensures
            r == (self.file->0, self.offset),
    {
        match self.file {
            Some(file) => (file, self.offset),
            None => (0, self.offset),
        }
    }

    /// Replaces the protection of the page.
    pub fn set_prot(&mut self, new_prot: MmapProts)
        ensures
            *final(self) == (MmapPage { prot: new_prot, ..*old(self) }),
    {
        self.prot = new_prot;
    }
}

/// The page that `MmapManager::push` reserves at page `vpn` of a mapping that starts at page
/// `first` and at file offset `offset`.
pub open spec fn pushed_page(
    first: u64,
    vpn: u64,
    prot: MmapProts,
    flags: MmapFlags,
    file: Option<u64>,
    offset: usize,
) -> MmapPage {
    MmapPage {
        vpn: VirtPageNum(vpn),
        valid: false,
        prot,
        flags,
        file,
        offset: (offset + (vpn - first) * PAGE_SIZE) as usize,
    }
}

/// The handles that `m` holds for the pages `[lo, hi)`, by increasing page number.
pub open spec fn frames_in(m: Map<u64, FrameTracker>, lo: u64, hi: u64) -> Seq<FrameTracker>
    decreases hi - lo,
{
    if hi <= lo {
        Seq::empty()
    } else {
        frames_in(m, lo, (hi - 1) as u64) + (if m.contains_key((hi - 1) as u64) {
            seq![m[(hi - 1) as u64]]
        } else {
            Seq::empty()
        })
    }
}

/// Integer keys are ordered as their values are.
proof fn lemma_u64_keys_ordered()
    ensures
        vstd::laws_cmp::obeys_cmp::<u64>(),
{
    broadcast use vstd::laws_cmp::group_laws_cmp;
}

/// The `mmap` region of an address space: its bounds, the pages reserved in it, and the
/// frames of the pages that have been touched.
pub struct MmapManager {
    /// Start of the region.
    pub mmap_start: VirtAddr,
    /// End of the reserved part of the region.
    pub mmap_top: VirtAddr,
    /// The reserved pages, by page number.
    pub mmap_map: BTreeMap<u64, MmapPage>,
    /// The frames of the touched pages, by page number.
    pub frame_trackers: BTreeMap<u64, FrameTracker>,
}

impl MmapManager {
    /// The reserved pages, by page number.
    pub open spec fn pages(&self) -> Map<u64, MmapPage> {
        self.mmap_map@
    }

    /// The frames of the touched pages, by page number.
    pub open spec fn frames(&self) -> Map<u64, FrameTracker> {
        self.frame_trackers@
    }

    /// A region `[mmap_start, mmap_top)` with nothing reserved.
    pub fn new(mmap_start: VirtAddr, mmap_top: VirtAddr) -> (r: MmapManager)
        ensures
            r.mmap_start == mmap_start,
            r.mmap_top == mmap_top,
            r.pages() == Map::<u64, MmapPage>::empty(),
            r.frames() == Map::<u64, FrameTracker>::empty(),
    {
        MmapManager {
            mmap_start,
            mmap_top,
            mmap_map: BTreeMap::new(),
            frame_trackers: BTreeMap::new(),
        }
    }

    /// The end of the reserved part of the region.
    pub fn get_mmap_top(&mut self) -> (r: VirtAddr)
        ensures
            r == old(self).mmap_top,
            *final(self) == *old(self),
    {
        self.mmap_top
    }

    /// Reserves the pages that cover `[start_va, start_va + len)`, page `i` of them at file
    /// offset `offset + i * PAGE_SIZE`, replacing what was reserved there; moves the top of
    /// the region to the end of the mapping (in its canonical form) when the mapping starts
    /// at or above it; returns `start_va`.
    pub fn push(
        &mut self,
        start_va: VirtAddr,
        len: usize,
        prot: MmapProts,
        flags: MmapFlags,
        offset: usize,
        file: Option<u64>,
    ) -> (r: u64)
        requires
            start_va.0 + len + PAGE_SIZE <= u64::MAX,
            offset + ((start_va.0 + len + PAGE_SIZE - 1) / (PAGE_SIZE as int) - (start_va.0 as int)
                / (PAGE_SIZE as int)) * (PAGE_SIZE as int) <= usize::MAX,
        ensures
            r == start_va.0,
            final(self).mmap_start == old(self).mmap_start,
            final(self).mmap_top == (if old(self).mmap_top.0 <= start_va.0 {
                VirtAddr(canonical_va((start_va.0 + len) as u64))
            } else {
                old(self).mmap_top
            }),
            final(self).frames() == old(self).frames(),
            forall|v: u64|
                start_va.0 / PAGE_SIZE <= v < (start_va.0 + len + PAGE_SIZE - 1) / (PAGE_SIZE as int)
                    ==> #[trigger] final(self).pages().contains_key(v) && final(self).pages()[v]
                    == pushed_page((start_va.0 / PAGE_SIZE) as u64, v, prot, flags, file, offset),
            forall|v: u64|
                !(start_va.0 / PAGE_SIZE <= v < (start_va.0 + len + PAGE_SIZE - 1) / (PAGE_SIZE as int))
                    ==> #[trigger] final(self).pages().contains_key(v) == old(self).pages().contains_key(v)
                    && (old(self).pages().contains_key(v) ==> final(self).pages()[v] == old(self).pages()[v]),
    {
        proof {
            lemma_u64_keys_ordered();
        }
        let end_addr: u64 = start_va.0 + len as u64;
        let end = VirtAddr(end_addr);
        proof {
            assert(start_va.0 as int / (PAGE_SIZE as int) <= (end.0 + PAGE_SIZE - 1) / (PAGE_SIZE
                as int)) by (nonlinear_arith)
                requires
                    start_va.0 <= end.0,
            ;
        }
        let range = VPNRange::from_va(start_va, end);
        let first = range.get_start().0;
        let last = range.get_end().0;
        let mut vpn = first;
        let mut cur_offset = offset;
        while vpn < last
            invariant
                first == start_va.0 / PAGE_SIZE,
                last == (start_va.0 + len + PAGE_SIZE - 1) / (PAGE_SIZE as int),
                first <= vpn <= last,
                cur_offset == offset + (vpn - first) * PAGE_SIZE,
                offset + (last - first) * PAGE_SIZE <= usize::MAX,
                self.mmap_start == old(self).mmap_start,
                self.mmap_top == old(self).mmap_top,
                self.frames() == old(self).frames(),
                forall|v: u64| first <= v < vpn ==> #[trigger] self.pages().contains_key(v)
                    && self.pages()[v] == pushed_page(first, v, prot, flags, file, offset),
                forall|v: u64| !(first <= v < vpn) ==> #[trigger] self.pages().contains_key(v)
                    == old(self).pages().contains_key(v) && (old(self).pages().contains_key(v)
                    ==> self.pages()[v] == old(self).pages()[v]),
            decreases last - vpn,
        {
            proof {
                lemma_u64_keys_ordered();
            }
            let page = MmapPage::new(VirtPageNum(vpn), prot, flags, false, file, cur_offset);
            let ghost p0 = self.pages();
            self.mmap_map.insert(vpn, page);
            assert(self.pages() == p0.insert(vpn, page));
            assert(page == pushed_page(first, vpn, prot, flags, file, offset));
            cur_offset = cur_offset + (PAGE_SIZE as usize);
            vpn = vpn + 1;
        }
        assert(vpn == last);
        assert forall|v: u64|
            start_va.0 / PAGE_SIZE <= v < (start_va.0 + len + PAGE_SIZE - 1) / (PAGE_SIZE as int)
                implies #[trigger] self.pages().contains_key(v) && self.pages()[v]
                == pushed_page((start_va.0 / PAGE_SIZE) as u64, v, prot, flags, file, offset) by {
            assert(first <= v < vpn);
        }
        if self.mmap_top.0 <= start_va.0 {
            self.mmap_top = VirtAddr::from_u64(end_addr);
        }
        start_va.0
    }

    /// Gives up the pages that cover `[start_va, start_va + len)`: they stop being reserved,
    /// and the handles on the frames of those that were touched are handed back, by
    /// increasing page number, for the caller to release.
    pub fn remove(&mut self, start_va: VirtAddr, len: usize) -> (r: Vec<FrameTracker>)
        requires
            start_va.0 + len + PAGE_SIZE <= u64::MAX,
        ensures
            final(self).mmap_start == old(self).mmap_start,
            final(self).mmap_top == old(self).mmap_top,
            r@ == frames_in(
                old(self).frames(),
                (start_va.0 / PAGE_SIZE) as u64,
                ((start_va.0 + len + PAGE_SIZE - 1) / (PAGE_SIZE as int)) as u64,
            ),
            forall|v: u64|
                start_va.0 / PAGE_SIZE <= v < (start_va.0 + len + PAGE_SIZE - 1) / (PAGE_SIZE as int)
                    ==> !(#[trigger] final(self).pages().contains_key(v)) && !final(self).frames().contains_key(v),
            forall|v: u64|
                !(start_va.0 / PAGE_SIZE <= v < (start_va.0 + len + PAGE_SIZE - 1) / (PAGE_SIZE as int))
                    ==> #[trigger] final(self).pages().contains_key(v) == old(self).pages().contains_key(v)
                    && (old(self).pages().contains_key(v) ==> final(self).pages()[v] == old(self).pages()[v])
                    && final(self).frames().contains_key(v) == old(self).frames().contains_key(v)
                    && (old(self).frames().contains_key(v) ==> final(self).frames()[v] == old(self).frames()[v]),
    {
        proof {
            lemma_u64_keys_ordered();
        }
        let end_va = VirtAddr(start_va.0 + len as u64);
        proof {
            assert(start_va.0 as int / (PAGE_SIZE as int) <= (end_va.0 + PAGE_SIZE - 1) / (PAGE_SIZE
                as int)) by (nonlinear_arith)
                requires
                    start_va.0 <= end_va.0,
            ;
        }
        let range = VPNRange::from_va(start_va, end_va);
        let first = range.get_start().0;
        let last = range.get_end().0;
        let mut vpn = first;
        let mut removed: Vec<FrameTracker> = Vec::new();
        while vpn < last
            invariant
                first == start_va.0 / PAGE_SIZE,
                last == (start_va.0 + len + PAGE_SIZE - 1) / (PAGE_SIZE as int),
                first <= vpn <= last,
                self.mmap_start == old(self).mmap_start,
                self.mmap_top == old(self).mmap_top,
                removed@ == frames_in(old(self).frames(), first, vpn),
                forall|v: u64| first <= v < vpn ==> !(#[trigger] self.pages().contains_key(v))
                    && !self.frames().contains_key(v),
                forall|v: u64| !(first <= v < vpn) ==> #[trigger] self.pages().contains_key(v)
                    == old(self).pages().contains_key(v) && (old(self).pages().contains_key(v)
                    ==> self.pages()[v] == old(self).pages()[v])
                    && self.frames().contains_key(v) == old(self).frames().contains_key(v)
                    && (old(self).frames().contains_key(v) ==> self.frames()[v] == old(self).frames()[v]),
            decreases last - vpn,
        {
            proof {
                lemma_u64_keys_ordered();
            }
            let ghost p0 = self.pages();
            let ghost f0 = self.frames();
            self.mmap_map.remove(&vpn);
            assert(self.pages() == p0.remove(vpn));
            let gone = self.frame_trackers.remove(&vpn);
            assert(self.frames() == f0.remove(vpn));
            assert(f0.contains_key(vpn) == old(self).frames().contains_key(vpn));
            assert(gone is Some ==> gone->0 == old(self).frames()[vpn]);
            match gone {
                Some(frame) => {
                    removed.push(frame);
                },
                None => {},
            }
            proof {
                assert forall|v: u64| !(first <= v < vpn + 1) implies #[trigger] self.pages().contains_key(v)
                    == old(self).pages().contains_key(v) && (old(self).pages().contains_key(v)
                    ==> self.pages()[v] == old(self).pages()[v])
                    && self.frames().contains_key(v) == old(self).frames().contains_key(v)
                    && (old(self).frames().contains_key(v) ==> self.frames()[v] == old(self).frames()[v]) by {
                    assert(p0.contains_key(v) == old(self).pages().contains_key(v));
                }
                assert(self.pages().contains_key(vpn) == false);
                assert(frames_in(old(self).frames(), first, (vpn + 1) as u64) == frames_in(
                    old(self).frames(),
                    first,
                    vpn,
                ) + (if old(self).frames().contains_key(vpn) {
                    seq![old(self).frames()[vpn]]
                } else {
                    Seq::empty()
                }));
            }
            vpn = vpn + 1;
        }
        removed
    }
}

} // verus!
