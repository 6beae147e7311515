//! Stack-style allocator of physical page frames, with a reference count per frame.
use vstd::prelude::*;
use std::collections::BTreeMap;
use crate::address::{PhysAddr, PhysPageNum};

verus! {

/// What a [`StackFrameAllocator`] holds, as mathematical values.
pub ghost struct FrameAllocatorModel {
    /// First frame number of the managed range.
    pub base_num: u64,
    /// Frame number just past the managed range.
    pub end: u64,
    /// Lowest frame number that was never handed out.
    pub current: u64,
    /// Frames given back, most recently freed last.
    pub recycled: Seq<u64>,
    /// Reference count of every frame that is handed out.
    pub refs: Map<u64, u8>,
}

impl FrameAllocatorModel {
    /// The consistency of the allocator: a frame is either handed out (it has a reference
    /// count), given back (it is on the recycled stack), or not reached yet; never two of these.
    pub open spec fn wf(self) -> bool {
        &&& self.current <= self.end
        &&& self.recycled.no_duplicates()
        &&& forall|i: int| 0 <= i < self.recycled.len() ==> #[trigger] self.recycled[i] < self.current
        &&& forall|i: int|
            0 <= i < self.recycled.len() ==> !self.refs.contains_key(#[trigger] self.recycled[i])
        &&& forall|p: u64| #[trigger] self.refs.contains_key(p) ==> p < self.current
    }

    /// Whether frame `p` is handed out.
    pub open spec fn allocated(self, p: u64) -> bool {
        self.refs.contains_key(p)
    }

    /// Whether frame `p` can be handed out by a later allocation.
    pub open spec fn available(self, p: u64) -> bool {
        self.recycled.contains(p) || (self.current <= p < self.end)
    }

    /// The state after an allocation, and the frame handed out: the most recently recycled
    /// frame if there is one, else the next frame never handed out, else nothing. The frame
    /// handed out starts with a reference count of 0.
    pub open spec fn alloc_spec(self) -> (Self, Option<u64>) {
        if self.recycled.len() > 0 {
            let p = self.recycled.last();
            (
                FrameAllocatorModel {
                    recycled: self.recycled.drop_last(),
                    refs: self.refs.insert(p, 0u8),
                    ..self
                },
                Some(p),
            )
        } else if self.current == self.end {
            (self, None)
        } else {
            (
                FrameAllocatorModel {
                    current: (self.current + 1) as u64,
                    refs: self.refs.insert(self.current, 0u8),
                    ..self
                },
                Some(self.current),
            )
        }
    }

    /// The state after dropping one reference to frame `p`: when the count falls to zero the
    /// frame stops being handed out and is pushed on the recycled stack.
    pub open spec fn dealloc_spec(self, p: u64) -> Self {
        let n = self.refs[p];
        if n == 1 {
            FrameAllocatorModel { recycled: self.recycled.push(p), refs: self.refs.remove(p), ..self }
        } else {
            FrameAllocatorModel { refs: self.refs.insert(p, (n - 1) as u8), ..self }
        }
    }

    /// The state after adding one reference to frame `p`.
    pub open spec fn add_ref_spec(self, p: u64) -> Self {
        FrameAllocatorModel { refs: self.refs.insert(p, (self.refs[p] + 1) as u8), ..self }
    }
}

/// Physical frame allocator that hands out frames from a range, reusing the most recently
/// freed frame first, and counts the references to every frame it has handed out.
pub struct StackFrameAllocator {
    base_num: u64,
    end: u64,
    current: u64,
    recycled: Vec<u64>,
    refcounter: BTreeMap<u64, u8>,
}

impl View for StackFrameAllocator {
    type V = FrameAllocatorModel;

    closed spec fn view(&self) -> FrameAllocatorModel {
        FrameAllocatorModel {
            base_num: self.base_num,
            end: self.end,
            current: self.current,
            recycled: self.recycled@,
            refs: self.refcounter@,
        }
    }
}

/// Integer keys are ordered as their values are.
proof fn lemma_u64_keys_ordered()
    ensures
        vstd::laws_cmp::obeys_cmp::<u64>(),
{
    broadcast use vstd::laws_cmp::group_laws_cmp;
}

/// A reference count widened to a machine word.
fn count_to_usize(n: u8) -> (r: usize)
    ensures
        r == n,
{
    n as usize
}

impl StackFrameAllocator {
    /// An allocator that manages no frame yet; it is given its range by [`Self::init`].
    pub fn new() -> (r: StackFrameAllocator)
        ensures
            r@.wf(),
            r@.base_num == 0,
            r@.current == 0,
            r@.end == 0,
            r@.recycled == Seq::<u64>::empty(),
            r@.refs == Map::<u64, u8>::empty(),
    {
        StackFrameAllocator {
            base_num: 0,
            current: 0,
            end: 0,
            recycled: Vec::new(),
            refcounter: BTreeMap::new(),
        }
    }

    /// Gives the allocator the frames `[l, r)` to manage.
    pub fn init(&mut self, l: PhysPageNum, r: PhysPageNum)
        requires
            old(self)@.recycled.len() == 0,
            old(self)@.refs == Map::<u64, u8>::empty(),
            l.0 <= r.0,
        ensures
            final(self)@.wf(),
            final(self)@ == (FrameAllocatorModel {
                base_num: l.0,
                current: l.0,
                end: r.0,
                ..old(self)@
            }),
    {
        self.current = l.0;
        self.end = r.0;
        self.base_num = l.0;
    }

    /// Hands out a frame: the most recently freed one if any, else the lowest frame never
    /// handed out, or `None` when the range is used up. Its reference count starts at 0.
    pub fn allocate(&mut self) -> (r: Option<PhysPageNum>)
        requires
            old(self)@.wf(),
        ensures
            final(self)@.wf(),
            final(self)@ == old(self)@.alloc_spec().0,
            r matches Some(p) ==> old(self)@.alloc_spec().1 == Some(p.0),
            r is None <==> old(self)@.alloc_spec().1 is None,
    {
        proof {
            lemma_u64_keys_ordered();
        }
        if let Some(ppn) = self.recycled.pop() {
            self.refcounter.insert(ppn, 0);
            proof {
                assert(old(self)@.recycled.drop_last() =~= self.recycled@);
                assert forall|i: int| 0 <= i < self.recycled@.len() implies !self.refcounter@.contains_key(
                    #[trigger] self.recycled@[i],
                ) by {
                    assert(old(self)@.recycled[i] == self.recycled@[i]);
                    assert(old(self)@.recycled[old(self)@.recycled.len() - 1] == ppn);
                }
            }
            Some(PhysPageNum(ppn))
        } else if self.current == self.end {
            None
        } else {
            self.current = self.current + 1;
            self.refcounter.insert(self.current - 1, 0);
            Some(PhysPageNum(self.current - 1))
        }
    }

    /// Whether `ppn` is on the recycled stack.
    fn is_recycled(&self, ppn: u64) -> (r: bool)
        ensures
            r == self@.recycled.contains(ppn),
    {
        let mut i: usize = 0;
        while i < self.recycled.len()
            invariant
                i <= self.recycled@.len(),
                forall|j: int| 0 <= j < i ==> self.recycled@[j] != ppn,
            decreases self.recycled@.len() - i,
        {
            if self.recycled[i] == ppn {
                return true;
            }
            i = i + 1;
        }
        false
    }

    /// Drops one reference to frame `ppn`; when none is left the frame is freed and pushed on
    /// the recycled stack. It is a fatal error on a frame that is not handed out or whose
    /// count is already 0.
    pub fn dealloc(&mut self, ppn: PhysPageNum)
        requires
            old(self)@.wf(),
            old(self)@.allocated(ppn.0),
            old(self)@.refs[ppn.0] > 0,
        ensures
            final(self)@.wf(),
            final(self)@ == old(self)@.dealloc_spec(ppn.0),
    {
        proof {
            lemma_u64_keys_ordered();
        }
        let ppn = ppn.0;
        let ref_times = *self.refcounter.get(&ppn).unwrap();
        let ref_times = ref_times - 1;
        self.refcounter.insert(ppn, ref_times);
        if ref_times == 0 {
            self.refcounter.remove(&ppn);
            let seen = self.is_recycled(ppn);
            if ppn >= self.current || seen {
                proof {
                    if seen {
                        let k = choose|k: int| 0 <= k < self@.recycled.len() && self@.recycled[k] == ppn;
                        assert(!old(self)@.refs.contains_key(old(self)@.recycled[k]));
                    }
                }
                assert(false);
            }
            self.recycled.push(ppn);
            proof {
                assert(self@.refs =~= old(self)@.refs.remove(ppn));
                assert forall|i: int| 0 <= i < self.recycled@.len() implies #[trigger] self.recycled@[i]
                    < self.current by {
                    if i < old(self)@.recycled.len() {
                        assert(self.recycled@[i] == old(self)@.recycled[i]);
                    }
                }
                assert forall|i: int| 0 <= i < self.recycled@.len() implies !self.refcounter@.contains_key(
                    #[trigger] self.recycled@[i],
                ) by {
                    if i < old(self)@.recycled.len() {
                        assert(self.recycled@[i] == old(self)@.recycled[i]);
                    }
                }
                assert(self.recycled@.no_duplicates()) by {
                    assert forall|i: int, j: int|
                        0 <= i < self.recycled@.len() && 0 <= j < self.recycled@.len() && i != j implies
                        self.recycled@[i] != self.recycled@[j] by {
                        if i < old(self)@.recycled.len() && j < old(self)@.recycled.len() {
                            assert(self.recycled@[i] == old(self)@.recycled[i]);
                            assert(self.recycled@[j] == old(self)@.recycled[j]);
                        } else if i < old(self)@.recycled.len() {
                            assert(self.recycled@[i] == old(self)@.recycled[i]);
                        } else if j < old(self)@.recycled.len() {
                            assert(self.recycled@[j] == old(self)@.recycled[j]);
                        }
                    }
                }
            }
        }
    }

    /// The number of frames that can still be handed out.
    pub(crate) fn free_count(&self) -> (r: u128)
        requires
            self@.wf(),
        ensures
            r == self@.recycled.len() + (self@.end - self@.current),
    {
        (self.recycled.len() as u128) + ((self.end - self.current) as u128)
    }

    /// The reference count of frame `ppn`, or `None` when it is not handed out.
    pub(crate) fn refcount_of(&self, ppn: PhysPageNum) -> (r: Option<u8>)
        ensures
            r == (if self@.allocated(ppn.0) {
                Some(self@.refs[ppn.0])
            } else {
                None
            }),
    {
        proof {
            lemma_u64_keys_ordered();
        }
        match self.refcounter.get(&ppn.0) {
            Some(n) => Some(*n),
            None => None,
        }
    }

    /// The lowest frame never handed out, the number of recycled frames, the end of the
    /// range and its start.
    pub fn usage(&self) -> (r: (u64, usize, u64, u64))
        ensures
            r.0 == self@.current,
            r.1 == self@.recycled.len(),
            r.2 == self@.end,
            r.3 == self@.base_num,
    {
        (self.current, self.recycled.len(), self.end, self.base_num)
    }

    /// Adds one reference to frame `ppn`. It is a fatal error on a frame that is not handed
    /// out, and its 8-bit count overflows past 255.
    pub fn add_ref(&mut self, ppn: PhysPageNum)
        requires
            old(self)@.wf(),
            old(self)@.allocated(ppn.0),
            old(self)@.refs[ppn.0] < 255,
        ensures
            final(self)@.wf(),
            final(self)@ == old(self)@.add_ref_spec(ppn.0),
    {
        proof {
            lemma_u64_keys_ordered();
        }
        let ppn = ppn.0;
        let ref_times = *self.refcounter.get(&ppn).unwrap();
        self.refcounter.insert(ppn, ref_times + 1);
    }

    /// The reference count of frame `ppn`. It is a fatal error on a frame that is not
    /// handed out.
    pub fn enquire_ref(&self, ppn: PhysPageNum) -> (r: usize)
        requires
            self@.allocated(ppn.0),
        ensures
            r == self@.refs[ppn.0],
    {
        proof {
            lemma_u64_keys_ordered();
        }
        let ref_times = *self.refcounter.get(&ppn.0).unwrap();
        count_to_usize(ref_times)
    }
}

/// A handle on a physical frame that holds one reference to it.
pub struct FrameTracker {
    pub ppn: PhysPageNum,
}

impl FrameTracker {
    /// Takes a reference to a freshly allocated frame. Clearing the frame's bytes is a write
    /// to physical memory that the caller makes.
    pub fn new(ppn: PhysPageNum, allocator: &mut StackFrameAllocator) -> (r: FrameTracker)
        requires
            old(allocator)@.wf(),
            old(allocator)@.allocated(ppn.0),
            old(allocator)@.refs[ppn.0] < 255,
        ensures
            r.ppn == ppn,
            final(allocator)@.wf(),
            final(allocator)@ == old(allocator)@.add_ref_spec(ppn.0),
    {
        frame_add_ref(ppn, allocator);
        FrameTracker { ppn }
    }

    /// Takes one more reference to a frame that is already handed out.
    pub fn from_ppn(ppn: PhysPageNum, allocator: &mut StackFrameAllocator) -> (r: FrameTracker)
        requires
            old(allocator)@.wf(),
            old(allocator)@.allocated(ppn.0),
            old(allocator)@.refs[ppn.0] < 255,
        ensures
            r.ppn == ppn,
            final(allocator)@.wf(),
            final(allocator)@ == old(allocator)@.add_ref_spec(ppn.0),
    {
        frame_add_ref(ppn, allocator);
        FrameTracker { ppn }
    }

    /// Gives the reference back (what dropping the handle does).
    pub fn release(self, allocator: &mut StackFrameAllocator)
        requires
            old(allocator)@.wf(),
            old(allocator)@.allocated(self.ppn.0),
            old(allocator)@.refs[self.ppn.0] > 0,
        ensures
            final(allocator)@.wf(),
            final(allocator)@ == old(allocator)@.dealloc_spec(self.ppn.0),
    {
        dealloc_frame(self.ppn, allocator);
    }
}

/// Gives the allocator the frames between the end of the kernel image (rounded up to a
/// page) and the end of physical memory (rounded down).
pub fn init(allocator: &mut StackFrameAllocator, ekernel: u64, phys_end: u64)
    requires
        old(allocator)@.recycled.len() == 0,
        old(allocator)@.refs == Map::<u64, u8>::empty(),
        (ekernel % 0x100_0000_0000_0000 + 0x1000 - 1) / 0x1000int <= (phys_end
            % 0x100_0000_0000_0000) / 0x1000,
    ensures
        final(allocator)@.wf(),
        final(allocator)@.current == (ekernel % 0x100_0000_0000_0000 + 0x1000 - 1) / 0x1000int,
        final(allocator)@.base_num == final(allocator)@.current,
        final(allocator)@.end == (phys_end % 0x100_0000_0000_0000) / 0x1000,
        final(allocator)@.recycled.len() == 0,
        final(allocator)@.refs == Map::<u64, u8>::empty(),
{
    let l = PhysAddr::from_u64(ekernel).ceil();
    let r = PhysAddr::from_u64(phys_end).floor();
    allocator.init(l, r);
}

/// Allocates a frame and takes a reference to it, or `None` when no frame is left.
pub fn alloc_frame(allocator: &mut StackFrameAllocator) -> (r: Option<FrameTracker>)
    requires
        old(allocator)@.wf(),
    ensures
        final(allocator)@.wf(),
        match old(allocator)@.alloc_spec().1 {
            None => r is None && final(allocator)@ == old(allocator)@,
            Some(p) => r == Some(FrameTracker { ppn: PhysPageNum(p) })
                && final(allocator)@ == old(allocator)@.alloc_spec().0.add_ref_spec(p),
        },
{
    let ppn = allocator.allocate();
    match ppn {
        None => None,
        Some(ppn) => Some(FrameTracker::new(ppn, allocator)),
    }
}

/// Drops one reference to frame `ppn`.
pub fn dealloc_frame(ppn: PhysPageNum, allocator: &mut StackFrameAllocator)
    requires
        old(allocator)@.wf(),
        old(allocator)@.allocated(ppn.0),
        old(allocator)@.refs[ppn.0] > 0,
    ensures
        final(allocator)@.wf(),
        final(allocator)@ == old(allocator)@.dealloc_spec(ppn.0),
{
    allocator.dealloc(ppn)
}

/// Adds one reference to frame `ppn`.
pub fn frame_add_ref(ppn: PhysPageNum, allocator: &mut StackFrameAllocator)
    requires
        old(allocator)@.wf(),
        old(allocator)@.allocated(ppn.0),
        old(allocator)@.refs[ppn.0] < 255,
    ensures
        final(allocator)@.wf(),
        final(allocator)@ == old(allocator)@.add_ref_spec(ppn.0),
{
    allocator.add_ref(ppn)
}

/// The reference count of frame `ppn`.
pub fn enquire_refcount(ppn: PhysPageNum, allocator: &StackFrameAllocator) -> (r: usize)
    requires
        allocator@.allocated(ppn.0),
    ensures
        r == allocator@.refs[ppn.0],
{
    allocator.enquire_ref(ppn)
}

/// A frame handed out by an allocation was not handed out before it, and is handed out
/// after it with a reference count of 0.
pub proof fn lemma_alloc_fresh(s: FrameAllocatorModel)
    requires
        s.wf(),
    ensures
        s.alloc_spec().0.wf(),
        s.alloc_spec().1 matches Some(p) ==> !s.allocated(p) && s.available(p)
            && s.alloc_spec().0.allocated(p) && s.alloc_spec().0.refs[p] == 0,
        forall|q: u64| s.allocated(q) ==> s.alloc_spec().0.allocated(q) && s.alloc_spec().0.refs[q]
            == s.refs[q],
{
    if s.recycled.len() > 0 {
        let p = s.recycled.last();
        assert(s.recycled[s.recycled.len() - 1] == p);
        let t = s.alloc_spec().0;
        assert forall|i: int| 0 <= i < t.recycled.len() implies !t.refs.contains_key(
            #[trigger] t.recycled[i],
        ) by {
            assert(t.recycled[i] == s.recycled[i]);
        }
        assert forall|i: int| 0 <= i < t.recycled.len() implies #[trigger] t.recycled[i] < t.current by {
            assert(t.recycled[i] == s.recycled[i]);
        }
        assert(s.recycled.contains(p));
    }
}

/// Freeing the last reference to a frame and allocating again hands out that same frame,
/// and leaves every other frame as it was.
pub proof fn lemma_dealloc_then_alloc(s: FrameAllocatorModel, p: u64)
    requires
        s.wf(),
        s.allocated(p),
        s.refs[p] == 1,
    ensures
        s.dealloc_spec(p).alloc_spec().1 == Some(p),
        s.dealloc_spec(p).alloc_spec().0.refs == s.refs.insert(p, 0u8),
        s.dealloc_spec(p).alloc_spec().0.recycled == s.recycled,
        s.dealloc_spec(p).alloc_spec().0.current == s.current,
{
    let t = s.dealloc_spec(p);
    assert(t.recycled.drop_last() =~= s.recycled);
    assert(t.refs.insert(p, 0u8) =~= s.refs.insert(p, 0u8));
}

/// Every operation keeps the allocator consistent: a frame is never handed out twice.
pub proof fn lemma_ops_keep_wf(s: FrameAllocatorModel, p: u64)
    requires
        s.wf(),
    ensures
        s.alloc_spec().0.wf(),
        s.allocated(p) && s.refs[p] > 0 ==> s.dealloc_spec(p).wf(),
        s.allocated(p) ==> s.add_ref_spec(p).wf(),
{
    lemma_alloc_fresh(s);
    if s.allocated(p) && s.refs[p] > 0 {
        let t = s.dealloc_spec(p);
        if s.refs[p] == 1 {
            assert forall|i: int| 0 <= i < t.recycled.len() implies !t.refs.contains_key(
                #[trigger] t.recycled[i],
            ) by {
                if i < s.recycled.len() {
                    assert(t.recycled[i] == s.recycled[i]);
                }
            }
            assert forall|i: int| 0 <= i < t.recycled.len() implies #[trigger] t.recycled[i] < t.current by {
                if i < s.recycled.len() {
                    assert(t.recycled[i] == s.recycled[i]);
                }
            }
            assert forall|i: int, j: int|
                0 <= i < t.recycled.len() && 0 <= j < t.recycled.len() && i != j implies t.recycled[i]
                != t.recycled[j] by {
                if i < s.recycled.len() {
                    assert(t.recycled[i] == s.recycled[i]);
                }
                if j < s.recycled.len() {
                    assert(t.recycled[j] == s.recycled[j]);
                }
            }
        }
    }
}

} // verus!
