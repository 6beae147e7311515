//! Process identifiers, handed out from a counter and recycled on a stack.
use vstd::prelude::*;

verus! {

/// What a [`PidAllocator`] holds, as mathematical values.
pub ghost struct PidAllocatorModel {
    /// Lowest identifier never handed out.
    pub current: usize,
    /// Identifiers given back, most recently freed last.
    pub recycled: Seq<usize>,
}

impl PidAllocatorModel {
    /// The recycled identifiers are distinct and were all handed out once.
    pub open spec fn wf(self) -> bool {
        &&& self.recycled.no_duplicates()
        &&& forall|i: int| 0 <= i < self.recycled.len() ==> #[trigger] self.recycled[i] < self.current
    }

    /// Whether `pid` is currently held by a process.
    pub open spec fn in_use(self, pid: usize) -> bool {
        pid < self.current && !self.recycled.contains(pid)
    }

    /// The state after an allocation, and the identifier handed out: the most recently
    /// recycled one if there is one, else the next identifier never handed out.
    pub open spec fn alloc_spec(self) -> (Self, usize) {
        if self.recycled.len() > 0 {
            (PidAllocatorModel { recycled: self.recycled.drop_last(), ..self }, self.recycled.last())
        } else {
            (PidAllocatorModel { current: (self.current + 1) as usize, ..self }, self.current)
        }
    }

    /// The state after giving `pid` back.
    pub open spec fn dealloc_spec(self, pid: usize) -> Self {
        PidAllocatorModel { recycled: self.recycled.push(pid), ..self }
    }
}

/// A process identifier held by a process.
pub struct PidHandle(pub usize);

/// Allocator of process identifiers that reuses the most recently freed one first.
pub struct PidAllocator {
    current: usize,
    recycled: Vec<usize>,
}

impl View for PidAllocator {
    type V = PidAllocatorModel;

    closed spec fn view(&self) -> PidAllocatorModel {
        PidAllocatorModel { current: self.current, recycled: self.recycled@ }
    }
}

impl PidAllocator {
    /// An allocator that has handed out nothing.
    pub fn new() -> (r: PidAllocator)
        ensures
            r@.wf(),
            r@.current == 0,
            r@.recycled == Seq::<usize>::empty(),
    {
        PidAllocator { current: 0, recycled: Vec::new() }
    }

    /// Hands out an identifier: the most recently freed one if any, else the next new one.
    pub fn alloc_pid(&mut self) -> (r: PidHandle)
        requires
            old(self)@.wf(),
            old(self)@.recycled.len() == 0 ==> old(self)@.current < usize::MAX,
        ensures
            final(self)@.wf(),
            final(self)@ == old(self)@.alloc_spec().0,
            r.0 == old(self)@.alloc_spec().1,
    {
        if let Some(pid) = self.recycled.pop() {
            proof {
                assert(old(self)@.recycled.drop_last() =~= self.recycled@);
                assert forall|i: int| 0 <= i < self.recycled@.len() implies #[trigger] self.recycled@[i]
                    < self.current by {
                    assert(self.recycled@[i] == old(self)@.recycled[i]);
                }
            }
            PidHandle(pid)
        } else {
            self.current = self.current + 1;
            PidHandle(self.current - 1)
        }
    }

    /// Whether `pid` is on the recycled stack.
    fn is_recycled(&self, pid: usize) -> (r: bool)
        ensures
            r == self@.recycled.contains(pid),
    {
        let mut i: usize = 0;
        while i < self.recycled.len()
            invariant
                i <= self.recycled@.len(),
                forall|j: int| 0 <= j < i ==> self.recycled@[j] != pid,
            decreases self.recycled@.len() - i,
        {
            if self.recycled[i] == pid {
                return true;
            }
            i = i + 1;
        }
        false
    }

    /// Gives an identifier back. It is a fatal error on an identifier never handed out or
    /// already given back.
    pub fn dealloc(&mut self, pid: usize)
        requires
            old(self)@.wf(),
            old(self)@.in_use(pid),
        ensures
            final(self)@.wf(),
            final(self)@ == old(self)@.dealloc_spec(pid),
    {
        let seen = self.is_recycled(pid);
        if pid >= self.current || seen {
            assert(false);
        }
        self.recycled.push(pid);
        proof {
            lemma_dealloc_keeps_wf(old(self)@, pid);
        }
    }
}

/// Hands out an identifier from `allocator`.
pub fn pid_alloc(allocator: &mut PidAllocator) -> (r: PidHandle)
    requires
        old(allocator)@.wf(),
        old(allocator)@.recycled.len() == 0 ==> old(allocator)@.current < usize::MAX,
    ensures
        final(allocator)@.wf(),
        final(allocator)@ == old(allocator)@.alloc_spec().0,
        r.0 == old(allocator)@.alloc_spec().1,
{
    allocator.alloc_pid()
}

impl PidHandle {
    /// Gives the identifier back (what dropping the handle does).
    pub fn release(self, allocator: &mut PidAllocator)
        requires
            old(allocator)@.wf(),
            old(allocator)@.in_use(self.0),
        ensures
            final(allocator)@.wf(),
            final(allocator)@ == old(allocator)@.dealloc_spec(self.0),
    {
        allocator.dealloc(self.0)
    }
}

/// Giving back an identifier in use keeps the allocator consistent.
pub proof fn lemma_dealloc_keeps_wf(s: PidAllocatorModel, pid: usize)
    requires
        s.wf(),
        s.in_use(pid),
    ensures
        s.dealloc_spec(pid).wf(),
{
    let t = s.dealloc_spec(pid);
    assert forall|i: int| 0 <= i < t.recycled.len() implies #[trigger] t.recycled[i] < t.current by {
        if i < s.recycled.len() {
            assert(t.recycled[i] == s.recycled[i]);
        }
    }
    assert forall|i: int, j: int|
        0 <= i < t.recycled.len() && 0 <= j < t.recycled.len() && i != j implies t.recycled[i]
        != t.recycled[j] by {
        if i < s.recycled.len() {
            assert(t.recycled[i] == s.recycled[i]);
        }
        if j < s.recycled.len() {
            assert(t.recycled[j] == s.recycled[j]);
        }
    }
}

/// An identifier handed out was not in use before, and is in use after; identifiers in use
/// stay in use.
pub proof fn lemma_alloc_fresh(s: PidAllocatorModel)
    requires
        s.wf(),
        s.recycled.len() == 0 ==> s.current < usize::MAX,
    ensures
        s.alloc_spec().0.wf(),
        !s.in_use(s.alloc_spec().1),
        s.alloc_spec().0.in_use(s.alloc_spec().1),
        forall|q: usize| s.in_use(q) ==> s.alloc_spec().0.in_use(q),
{
    let t = s.alloc_spec().0;
    let p = s.alloc_spec().1;
    if s.recycled.len() > 0 {
        assert(s.recycled[s.recycled.len() - 1] == p);
        assert(s.recycled.contains(p));
        assert forall|i: int| 0 <= i < t.recycled.len() implies #[trigger] t.recycled[i] < t.current by {
            assert(t.recycled[i] == s.recycled[i]);
        }
        assert(!t.recycled.contains(p)) by {
            if t.recycled.contains(p) {
                let k = choose|k: int| 0 <= k < t.recycled.len() && t.recycled[k] == p;
                assert(s.recycled[k] == s.recycled[s.recycled.len() - 1]);
            }
        }
        assert forall|q: usize| s.in_use(q) implies t.in_use(q) by {
            if t.recycled.contains(q) {
                let k = choose|k: int| 0 <= k < t.recycled.len() && t.recycled[k] == q;
                assert(s.recycled[k] == q);
            }
        }
    } else {
        assert forall|q: usize| s.in_use(q) implies t.in_use(q) by {}
        assert(!t.recycled.contains(p));
    }
}

/// Giving an identifier back and allocating again hands out that same identifier and
/// restores the allocator.
pub proof fn lemma_dealloc_then_alloc(s: PidAllocatorModel, pid: usize)
    requires
        s.wf(),
        s.in_use(pid),
    ensures
        s.dealloc_spec(pid).alloc_spec().1 == pid,
        s.dealloc_spec(pid).alloc_spec().0 == s,
{
    assert(s.recycled.push(pid).drop_last() =~= s.recycled);
}

} // verus!
