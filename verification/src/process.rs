//! The tree of processes and threads: who is whose parent, which have exited, and what
//! exiting, forking and reaping a child do to it.
use vstd::prelude::*;
use std::collections::BTreeMap;
use crate::clone::{clone_plan, has, plan_of, ClonePlan, CloneFlags};
use crate::errno::Errno;
use crate::fd_table::{copy_fd_table, FDTable};
use crate::fork::lemma_u64_keys_ordered;
use crate::signal_delivery::kill_decision;
use crate::signals::{mask_after, sigprocmask_apply, SigMask, SIGMASK_ALL};
use crate::task::TaskStatus;
use crate::scheduler::TaskManager;
use crate::wait::{wait4_step, wait_status, waited_for, WaitStep};

verus! {

/// The id of the first process, which adopts the children of every process that exits.
pub const INITPROC_PID: u64 = 0;

/// What the tree knows of a task.
pub struct TaskNode {
    pub pid: u64,
    /// The thread group: the task's own id for a process, the creating task's for a thread.
    pub tgid: u64,
    pub parent: Option<u64>,
    /// The children, processes and threads, in the order they were made.
    pub children: Vec<u64>,
    pub status: TaskStatus,
    pub exit_code: i32,
    /// The user address that is cleared when the task exits; 0 for none.
    pub clear_child_tid: u64,
    /// The signals sent to the task and not yet handled.
    pub pending_signals: SigMask,
    /// The signals the task blocks.
    pub sigmask: SigMask,
    /// The working directory: the bytes of its absolute path.
    pub cwd: Vec<u8>,
}

impl TaskNode {
    /// A thread: a task outside its own thread group.
    pub open spec fn is_child_thread(&self) -> bool {
        self.pid != self.tgid
    }
}

/// The well-formed trees: each task is filed under its id; the parent of a task is another
/// task, not exited, that lists it among its children; a task that has not exited lists
/// only tasks of the tree whose parent it is; and no task lists a child twice.
pub open spec fn tree_ok(m: Map<u64, TaskNode>) -> bool {
    &&& forall|p: u64| m.contains_key(p) ==> #[trigger] m[p].pid == p
    &&& forall|c: u64|
        #![trigger m[c].parent]
        m.contains_key(c) && m[c].parent is Some ==> {
            let p = m[c].parent->0;
            &&& p != c
            &&& m.contains_key(p)
            &&& !(m[p].status is Zombie)
            &&& m[p].children@.contains(c)
        }
    &&& forall|p: u64, i: int|
        #![trigger m[p].children@[i]]
        m.contains_key(p) && !(m[p].status is Zombie) && 0 <= i < m[p].children@.len() ==> {
            &&& m.contains_key(m[p].children@[i])
            &&& m[m[p].children@[i]].parent == Some(p)
        }
    &&& forall|p: u64| m.contains_key(p) ==> (#[trigger] m[p].children@).no_duplicates()
}

/// The tasks of the kernel, by id.
pub struct TaskTree {
    tasks: BTreeMap<u64, TaskNode>,
}

impl TaskTree {
    /// The tasks, by id.
    pub closed spec fn nodes(&self) -> Map<u64, TaskNode> {
        self.tasks@
    }

    /// The tree is well formed.
    pub open spec fn wf(&self) -> bool {
        tree_ok(self.nodes())
    }

    /// No task.
    pub fn new() -> (r: TaskTree)
        ensures
            r.wf(),
            r.nodes() == Map::<u64, TaskNode>::empty(),
    {
        TaskTree { tasks: BTreeMap::new() }
    }

    /// Whether task `pid` is in the tree.
    pub fn contains(&self, pid: u64) -> (r: bool)
        ensures
            r == self.nodes().contains_key(pid),
    {
        proof {
            lemma_u64_keys_ordered();
        }
        self.tasks.contains_key(&pid)
    }

    /// Task `pid`, if it is in the tree.
    pub fn get(&self, pid: u64) -> (r: Option<&TaskNode>)
        ensures
            match r {
                Some(n) => self.nodes().contains_key(pid) && *n == self.nodes()[pid],
                None => !self.nodes().contains_key(pid),
            },
    {
        proof {
            lemma_u64_keys_ordered();
        }
        self.tasks.get(&pid)
    }

    /// Adds process `pid`, without a parent: the first process.
    pub fn add_root(&mut self, pid: u64)
        requires
            old(self).wf(),
            !old(self).nodes().contains_key(pid),
        ensures
            final(self).wf(),
            final(self).nodes().dom() == old(self).nodes().dom().insert(pid),
            final(self).nodes()[pid].pid == pid,
            final(self).nodes()[pid].tgid == pid,
            final(self).nodes()[pid].parent is None,
            final(self).nodes()[pid].children@.len() == 0,
            final(self).nodes()[pid].status == TaskStatus::Ready,
            final(self).nodes()[pid].exit_code == 0,
            final(self).nodes()[pid].clear_child_tid == 0,
            final(self).nodes()[pid].pending_signals.bits == 0,
            final(self).nodes()[pid].sigmask.bits == 0,
            final(self).nodes()[pid].cwd@ == seq![47u8],
            forall|q: u64| q != pid && old(self).nodes().contains_key(q) ==> final(self).nodes()[q] == old(self).nodes()[q],
    {
        proof {
            lemma_u64_keys_ordered();
        }
        let node = TaskNode {
            pid,
            tgid: pid,
            parent: None,
            children: Vec::new(),
            status: TaskStatus::Ready,
            exit_code: 0,
            clear_child_tid: 0,
            pending_signals: SigMask::empty(),
            sigmask: SigMask::empty(),
            cwd: vec![47u8],
        };
        self.tasks.insert(pid, node);
        proof {
            let m0 = old(self).nodes();
            let m = self.nodes();
            assert(m.dom() =~= m0.dom().insert(pid));
            assert forall|p: u64, i: int|
                #![trigger m[p].children@[i]]
                m.contains_key(p) && !(m[p].status is Zombie) && 0 <= i < m[p].children@.len() implies {
                &&& m.contains_key(m[p].children@[i])
                &&& m[m[p].children@[i]].parent == Some(p)
            } by {
                if p != pid {
                    assert(m0[p].children@[i] == m[p].children@[i]);
                    assert(m0.contains_key(m0[p].children@[i]));
                }
            }
        }
    }

    /// Adds task `child`, made by task `parent`, at the end of its children: a thread of the
    /// thread group `parent` when `thread`, else a process of its own.
    pub fn fork(&mut self, parent: u64, child: u64, thread: bool)
        requires
            old(self).wf(),
            old(self).nodes().contains_key(parent),
            !(old(self).nodes()[parent].status is Zombie),
            !old(self).nodes().contains_key(child),
            old(self).nodes()[parent].children@.len() < usize::MAX,
        ensures
            final(self).wf(),
            final(self).nodes().dom() == old(self).nodes().dom().insert(child),
            final(self).nodes()[child].pid == child,
            final(self).nodes()[child].tgid == if thread {
                parent
            } else {
                child
            },
            final(self).nodes()[child].parent == Some(parent),
            final(self).nodes()[child].children@.len() == 0,
            final(self).nodes()[child].status == TaskStatus::Ready,
            final(self).nodes()[child].exit_code == 0,
            final(self).nodes()[child].clear_child_tid == 0,
            final(self).nodes()[child].pending_signals.bits == 0,
            final(self).nodes()[child].sigmask == old(self).nodes()[parent].sigmask,
            final(self).nodes()[child].cwd@ == old(self).nodes()[parent].cwd@,
            final(self).nodes()[parent].children@ == old(self).nodes()[parent].children@.push(child),
            same_but_children(old(self).nodes()[parent], final(self).nodes()[parent]),
            forall|q: u64|
                q != parent && q != child && old(self).nodes().contains_key(q) ==> final(self).nodes()[q] == old(
                    self,
                ).nodes()[q],
    {
        proof {
            lemma_u64_keys_ordered();
        }
        let tgid = if thread {
            parent
        } else {
            child
        };
        let mut pnode = self.tasks.remove(&parent).unwrap();
        let sigmask = pnode.sigmask;
        let cwd = copy_bytes(&pnode.cwd);
        pnode.children.push(child);
        self.tasks.insert(parent, pnode);
        let node = TaskNode {
            pid: child,
            tgid,
            parent: Some(parent),
            children: Vec::new(),
            status: TaskStatus::Ready,
            exit_code: 0,
            clear_child_tid: 0,
            pending_signals: SigMask::empty(),
            sigmask,
            cwd,
        };
        self.tasks.insert(child, node);
        proof {
            let m0 = old(self).nodes();
            let m = self.nodes();
            assert(m.dom() =~= m0.dom().insert(child));
            assert(m[parent].children@ == m0[parent].children@.push(child));
            assert forall|c: u64|
                #![trigger m[c].parent]
                m.contains_key(c) && m[c].parent is Some implies {
                let p = m[c].parent->0;
                &&& p != c
                &&& m.contains_key(p)
                &&& !(m[p].status is Zombie)
                &&& m[p].children@.contains(c)
            } by {
                if c != child {
                    let p = m0[c].parent->0;
                    assert(m0[p].children@.contains(c));
                    if p == parent {
                        let k = choose|k: int| 0 <= k < m0[p].children@.len() && m0[p].children@[k] == c;
                        assert(m[p].children@[k] == c);
                    }
                } else {
                    assert(m[parent].children@[m0[parent].children@.len() as int] == child);
                }
            }
            assert forall|p: u64, i: int|
                #![trigger m[p].children@[i]]
                m.contains_key(p) && !(m[p].status is Zombie) && 0 <= i < m[p].children@.len() implies {
                &&& m.contains_key(m[p].children@[i])
                &&& m[m[p].children@[i]].parent == Some(p)
            } by {
                if p != child && !(p == parent && i == m0[parent].children@.len()) {
                    assert(m0[p].children@[i] == m[p].children@[i]);
                    assert(m0.contains_key(m0[p].children@[i]));
                }
            }
            assert forall|p: u64| m.contains_key(p) implies (#[trigger] m[p].children@).no_duplicates() by {
                if p == parent {
                    assert forall|i: int, j: int|
                        0 <= i < j < m[p].children@.len() implies m[p].children@[i] != m[p].children@[j] by {
                        if j == m0[p].children@.len() {
                            assert(m0.contains_key(m0[p].children@[i]));
                        }
                    }
                }
            }
        }
    }
}

/// `b` is `a` but for its children.
pub open spec fn same_but_children(a: TaskNode, b: TaskNode) -> bool {
    &&& b.pid == a.pid
    &&& b.tgid == a.tgid
    &&& b.parent == a.parent
    &&& b.status == a.status
    &&& b.exit_code == a.exit_code
    &&& b.clear_child_tid == a.clear_child_tid
    &&& b.pending_signals == a.pending_signals
    &&& b.sigmask == a.sigmask
    &&& b.cwd@ == a.cwd@
}

/// `b` is `a` but for its parent.
pub open spec fn same_but_parent(a: TaskNode, b: TaskNode) -> bool {
    &&& b.pid == a.pid
    &&& b.tgid == a.tgid
    &&& b.children@ == a.children@
    &&& b.status == a.status
    &&& b.exit_code == a.exit_code
    &&& b.clear_child_tid == a.clear_child_tid
    &&& b.pending_signals == a.pending_signals
    &&& b.sigmask == a.sigmask
    &&& b.cwd@ == a.cwd@
}

/// What is left to do when a task has exited, besides running another task.
#[derive(Copy, Clone, PartialEq, Eq, Debug, Structural)]
pub struct ExitAction {
    /// The user address at which to write 0 and wake one waiter.
    pub clear_child_tid: Option<u64>,
    /// The task was a thread, now out of the tree: its resources go to the thread cleaner.
    pub is_child_thread: bool,
}

/// The tasks that may exit: tasks of a well-formed tree with the first process, which has
/// no parent and has not exited; not that process itself; not exited yet; and, for a
/// thread, one without children and with a parent.
pub open spec fn may_exit(m: Map<u64, TaskNode>, pid: u64) -> bool {
    &&& tree_ok(m)
    &&& m.contains_key(pid)
    &&& pid != INITPROC_PID
    &&& m.contains_key(INITPROC_PID)
    &&& m[INITPROC_PID].parent is None
    &&& !(m[INITPROC_PID].status is Zombie)
    &&& !(m[pid].status is Zombie)
    &&& m[pid].is_child_thread() ==> m[pid].children@.len() == 0 && m[pid].parent is Some
    &&& m[INITPROC_PID].children@.len() + m[pid].children@.len() <= usize::MAX
}

/// The tree after process `pid` (not a thread) of `m0` has exited with `code`: it is a
/// zombie; its children are children of the first process, after those it had.
pub open spec fn process_exited(m0: Map<u64, TaskNode>, m: Map<u64, TaskNode>, pid: u64, code: i32) -> bool {
    let cs = m0[pid].children@;
    &&& m.dom() == m0.dom()
    &&& m[pid].status == TaskStatus::Zombie
    &&& m[pid].exit_code == code
    &&& m[pid].pid == m0[pid].pid
    &&& m[pid].tgid == m0[pid].tgid
    &&& m[pid].parent == m0[pid].parent
    &&& m[pid].children@ == cs
    &&& m[pid].clear_child_tid == m0[pid].clear_child_tid
    &&& m[pid].pending_signals == m0[pid].pending_signals
    &&& m[pid].sigmask == m0[pid].sigmask
    &&& m[pid].cwd@ == m0[pid].cwd@
    &&& same_but_children(m0[INITPROC_PID], m[INITPROC_PID])
    &&& m[INITPROC_PID].children@ == m0[INITPROC_PID].children@ + cs
    &&& forall|j: int|
        0 <= j < cs.len() ==> same_but_parent(m0[cs[j]], #[trigger] m[cs[j]]) && m[cs[j]].parent == Some(
            INITPROC_PID,
        )
    &&& forall|q: u64|
        m0.contains_key(q) && q != pid && q != INITPROC_PID && !cs.contains(q) ==> #[trigger] m[q] == m0[q]
}

/// The tree after thread `pid` of `m0` has exited: it is out of the tree and out of the
/// children of its parent, where it was first at index `k`.
pub open spec fn thread_exited(m0: Map<u64, TaskNode>, m: Map<u64, TaskNode>, pid: u64, k: int) -> bool {
    let pp = m0[pid].parent->0;
    &&& m.dom() == m0.dom().remove(pid)
    &&& 0 <= k < m0[pp].children@.len()
    &&& m0[pp].children@[k] == pid
    &&& same_but_children(m0[pp], m[pp])
    &&& m[pp].children@ == m0[pp].children@.remove(k)
    &&& forall|q: u64| m.contains_key(q) && q != pp ==> #[trigger] m[q] == m0[q]
}

/// A process that exits leaves a well-formed tree.
proof fn lemma_process_exit_ok(m0: Map<u64, TaskNode>, m: Map<u64, TaskNode>, pid: u64, code: i32)
    requires
        may_exit(m0, pid),
        process_exited(m0, m, pid, code),
    ensures
        tree_ok(m),
{
    let cs = m0[pid].children@;
    let ini = INITPROC_PID;
    assert forall|j: int| 0 <= j < cs.len() implies m0.contains_key(#[trigger] cs[j]) && m0[cs[j]].parent == Some(pid)
        && cs[j] != pid && cs[j] != ini by {
        assert(m0.contains_key(m0[pid].children@[j]));
    }
    assert forall|p: u64| m.contains_key(p) implies #[trigger] m[p].pid == p by {
        if cs.contains(p) {
            let j = choose|j: int| 0 <= j < cs.len() && cs[j] == p;
            assert(m[cs[j]].pid == m0[cs[j]].pid);
        }
    }
    assert forall|c: u64|
        #![trigger m[c].parent]
        m.contains_key(c) && m[c].parent is Some implies {
        let p = m[c].parent->0;
        &&& p != c
        &&& m.contains_key(p)
        &&& !(m[p].status is Zombie)
        &&& m[p].children@.contains(c)
    } by {
        if cs.contains(c) {
            let j = choose|j: int| 0 <= j < cs.len() && cs[j] == c;
            assert(m[cs[j]].parent == Some(ini));
            assert(m[ini].children@[m0[ini].children@.len() + j] == c);
        } else if c != ini {
            let p = m0[c].parent->0;
            assert(m0[c].parent is Some);
            assert(m0[p].children@.contains(c));
            if p == pid {
                assert(cs.contains(c));
            }
            let k = choose|k: int| 0 <= k < m0[p].children@.len() && m0[p].children@[k] == c;
            if p == ini {
                assert(m[ini].children@[k] == c);
            } else if cs.contains(p) {
                let j = choose|j: int| 0 <= j < cs.len() && cs[j] == p;
                assert(m[cs[j]].children@ == m0[cs[j]].children@);
                assert(m[p].children@[k] == c);
            } else {
                assert(m[p] == m0[p]);
            }
            if c == pid {
                assert(m[pid].parent == m0[pid].parent);
            } else {
                assert(m[c] == m0[c]);
            }
            if cs.contains(p) {
                let j = choose|j: int| 0 <= j < cs.len() && cs[j] == p;
                assert(m[cs[j]].status == m0[cs[j]].status);
            }
        }
    }
    assert forall|p: u64, i: int|
        #![trigger m[p].children@[i]]
        m.contains_key(p) && !(m[p].status is Zombie) && 0 <= i < m[p].children@.len() implies {
        &&& m.contains_key(m[p].children@[i])
        &&& m[m[p].children@[i]].parent == Some(p)
    } by {
        let x = m[p].children@[i];
        if p == ini && i >= m0[ini].children@.len() {
            let j = i - m0[ini].children@.len();
            assert(x == cs[j]);
        } else {
            if cs.contains(p) {
                let j = choose|j: int| 0 <= j < cs.len() && cs[j] == p;
                assert(m[cs[j]].children@ == m0[cs[j]].children@);
                assert(m[p].status == m0[p].status);
            } else if p != ini {
                assert(m[p] == m0[p]);
            }
            assert(x == m0[p].children@[i]);
            assert(m0.contains_key(x) && m0[x].parent == Some(p));
            if cs.contains(x) {
                let j = choose|j: int| 0 <= j < cs.len() && cs[j] == x;
                assert(m0[cs[j]].parent == Some(pid));
            } else if x != pid && x != ini {
                assert(m[x] == m0[x]);
            }
        }
    }
    assert forall|p: u64| m.contains_key(p) implies (#[trigger] m[p].children@).no_duplicates() by {
        if p == ini {
            let a = m0[ini].children@;
            assert forall|i: int, j: int| 0 <= i < j < (a + cs).len() implies (a + cs)[i] != (a + cs)[j] by {
                assert(a.no_duplicates());
                assert(cs.no_duplicates());
                if i < a.len() && j >= a.len() {
                    assert(m0.contains_key(a[i]) && m0[a[i]].parent == Some(ini));
                    assert((a + cs)[j] == cs[j - a.len()]);
                }
            }
        } else if cs.contains(p) {
            let j = choose|j: int| 0 <= j < cs.len() && cs[j] == p;
            assert(m[cs[j]].children@ == m0[cs[j]].children@);
        } else if p != pid {
            assert(m[p] == m0[p]);
        }
    }
}

/// A thread that exits leaves a well-formed tree.
proof fn lemma_thread_exit_ok(m0: Map<u64, TaskNode>, m: Map<u64, TaskNode>, pid: u64, k: int)
    requires
        may_exit(m0, pid),
        m0[pid].is_child_thread(),
        thread_exited(m0, m, pid, k),
    ensures
        tree_ok(m),
{
    let pp = m0[pid].parent->0;
    let a = m0[pp].children@;
    assert(a.no_duplicates());
    assert forall|p: u64| m.contains_key(p) implies #[trigger] m[p].pid == p by {
        if p != pp {
            assert(m[p] == m0[p]);
        }
    }
    assert forall|c: u64|
        #![trigger m[c].parent]
        m.contains_key(c) && m[c].parent is Some implies {
        let p = m[c].parent->0;
        &&& p != c
        &&& m.contains_key(p)
        &&& !(m[p].status is Zombie)
        &&& m[p].children@.contains(c)
    } by {
        assert(m0[c].parent == m[c].parent);
        let p = m0[c].parent->0;
        assert(m0[p].children@.contains(c));
        if p == pid {
            let i = choose|i: int| 0 <= i < m0[pid].children@.len() && m0[pid].children@[i] == c;
            assert(false);
        }
        let i = choose|i: int| 0 <= i < m0[p].children@.len() && m0[p].children@[i] == c;
        if p == pp {
            if i < k {
                assert(m[pp].children@[i] == c);
            } else {
                assert(i != k);
                assert(m[pp].children@[i - 1] == c);
            }
        } else {
            assert(m[p] == m0[p]);
        }
    }
    assert forall|p: u64, i: int|
        #![trigger m[p].children@[i]]
        m.contains_key(p) && !(m[p].status is Zombie) && 0 <= i < m[p].children@.len() implies {
        &&& m.contains_key(m[p].children@[i])
        &&& m[m[p].children@[i]].parent == Some(p)
    } by {
        let x = m[p].children@[i];
        if p == pp {
            let i0 = if i < k {
                i
            } else {
                i + 1
            };
            assert(x == a[i0]);
            assert(i0 != k);
            assert(x != pid);
            assert(m0.contains_key(a[i0]));
        } else {
            assert(m[p] == m0[p]);
            assert(m0.contains_key(x) && m0[x].parent == Some(p));
        }
        if x != pp {
            assert(m[x] == m0[x]);
        }
    }
    assert forall|p: u64| m.contains_key(p) implies (#[trigger] m[p].children@).no_duplicates() by {
        if p == pp {
            assert forall|i: int, j: int|
                0 <= i < j < a.remove(k).len() implies a.remove(k)[i] != a.remove(k)[j] by {
                let i0 = if i < k {
                    i
                } else {
                    i + 1
                };
                let j0 = if j < k {
                    j
                } else {
                    j + 1
                };
                assert(a[i0] != a[j0]);
            }
        } else {
            assert(m[p] == m0[p]);
        }
    }
}

impl TaskTree {
    /// Task `pid` exits with `exit_code`. A process becomes a zombie, to be reaped by its
    /// parent, and the first process adopts its children; a thread leaves the tree and the
    /// children of its parent at once. The result says what is left to do.
    pub fn exit_current_and_run_next(&mut self, pid: u64, exit_code: i32) -> (r: ExitAction)
        requires
            may_exit(old(self).nodes(), pid),
        ensures
            final(self).wf(),
            r.is_child_thread == old(self).nodes()[pid].is_child_thread(),
            r.clear_child_tid == if old(self).nodes()[pid].clear_child_tid != 0 {
                Some(old(self).nodes()[pid].clear_child_tid)
            } else {
                None::<u64>
            },
            !r.is_child_thread ==> process_exited(old(self).nodes(), final(self).nodes(), pid, exit_code),
            r.is_child_thread ==> exists|k: int| thread_exited(old(self).nodes(), final(self).nodes(), pid, k),
    {
        proof {
            lemma_u64_keys_ordered();
        }
        let ghost m0 = self.nodes();
        let mut node = self.tasks.remove(&pid).unwrap();
        let clear_child_tid = if node.clear_child_tid != 0 {
            Some(node.clear_child_tid)
        } else {
            None
        };
        let is_child_thread = node.pid != node.tgid;
        let ghost cs = node.children@;
        proof {
            assert(node == m0[pid]);
            assert(m0[pid].pid == pid);
            assert forall|j: int| 0 <= j < cs.len() implies m0.contains_key(#[trigger] cs[j]) && m0[cs[j]].parent
                == Some(pid) && cs[j] != pid && cs[j] != INITPROC_PID by {
                assert(m0.contains_key(m0[pid].children@[j]));
            }
            assert(cs.no_duplicates());
        }
        let n = node.children.len();
        let mut i: usize = 0;
        while i < n
            invariant
                node.children@ == cs,
                n == cs.len(),
                i <= n,
                cs.no_duplicates(),
                forall|j: int|
                    0 <= j < cs.len() ==> m0.contains_key(#[trigger] cs[j]) && m0[cs[j]].parent == Some(pid)
                        && cs[j] != pid && cs[j] != INITPROC_PID,
                self.tasks@.dom() == m0.dom().remove(pid),
                forall|j: int|
                    0 <= j < i ==> same_but_parent(m0[cs[j]], #[trigger] self.tasks@[cs[j]]) && self.tasks@[cs[j]].parent
                        == Some(INITPROC_PID),
                forall|q: u64|
                    self.tasks@.contains_key(q) && (forall|j: int| 0 <= j < i ==> cs[j] != q) ==> #[trigger] self.tasks@[q]
                        == m0[q],
            decreases n - i,
        {
            let c = node.children[i];
            proof {
                assert(forall|j: int| 0 <= j < i ==> cs[j] != cs[i as int]);
                assert(self.tasks@.contains_key(c));
            }
            let mut cnode = self.tasks.remove(&c).unwrap();
            cnode.parent = Some(INITPROC_PID);
            self.tasks.insert(c, cnode);
            proof {
                assert(self.tasks@.dom() =~= m0.dom().remove(pid));
                assert forall|j: int| 0 <= j < i + 1 implies same_but_parent(m0[cs[j]], #[trigger] self.tasks@[cs[j]])
                    && self.tasks@[cs[j]].parent == Some(INITPROC_PID) by {
                    if j < i {
                        assert(cs[j] != c);
                    }
                }
            }
            i = i + 1;
        }
        if is_child_thread {
            let pp = node.parent.unwrap();
            proof {
                assert(m0[pid].parent == Some(pp));
                assert(self.tasks@[pp] == m0[pp]);
            }
            let mut pnode = self.tasks.remove(&pp).unwrap();
            let ghost a = pnode.children@;
            proof {
                assert(a.contains(pid));
            }
            let mut k: usize = 0;
            while k < pnode.children.len()
                invariant_except_break
                    pnode.children@ == a,
                    a.contains(pid),
                    k <= a.len(),
                    forall|j: int| 0 <= j < k ==> a[j] != pid,
                ensures
                    pnode.children@ == a,
                    k < a.len(),
                    a[k as int] == pid,
                decreases a.len() - k,
            {
                if pnode.children[k] == pid {
                    break;
                }
                k = k + 1;
            }
            pnode.children.remove(k);
            self.tasks.insert(pp, pnode);
            proof {
                let m = self.nodes();
                assert(m.dom() =~= m0.dom().remove(pid));
                assert(thread_exited(m0, m, pid, k as int));
                lemma_thread_exit_ok(m0, m, pid, k as int);
            }
        } else {
            if n > 0 {
                proof {
                    assert(self.tasks@[INITPROC_PID] == m0[INITPROC_PID]);
                }
                let mut init = self.tasks.remove(&INITPROC_PID).unwrap();
                let ghost a = init.children@;
                let mut j: usize = 0;
                while j < n
                    invariant
                        node.children@ == cs,
                        n == cs.len(),
                        j <= n,
                        init.children@ == a + cs.subrange(0, j as int),
                        a.len() + cs.len() <= usize::MAX,
                        same_but_children(m0[INITPROC_PID], init),
                    decreases n - j,
                {
                    init.children.push(node.children[j]);
                    proof {
                        assert(a + cs.subrange(0, j + 1) =~= (a + cs.subrange(0, j as int)).push(cs[j as int]));
                    }
                    j = j + 1;
                }
                proof {
                    assert(cs.subrange(0, n as int) =~= cs);
                }
                self.tasks.insert(INITPROC_PID, init);
            }
            node.status = TaskStatus::Zombie;
            node.exit_code = exit_code;
            self.tasks.insert(pid, node);
            proof {
                let m = self.nodes();
                assert(m.dom() =~= m0.dom());
                if n == 0 {
                    assert(m0[INITPROC_PID].children@ + cs =~= m0[INITPROC_PID].children@);
                }
                assert forall|q: u64|
                    m0.contains_key(q) && q != pid && q != INITPROC_PID && !cs.contains(q) implies #[trigger] m[q]
                    == m0[q] by {
                    assert forall|j: int| 0 <= j < n implies cs[j] != q by {
                        if cs[j] == q {
                            assert(cs.contains(q));
                        }
                    }
                }
                assert(process_exited(m0, m, pid, exit_code));
                lemma_process_exit_ok(m0, m, pid, exit_code);
            }
        }
        ExitAction { clear_child_tid, is_child_thread }
    }
}

/// What one look of `wait4` found.
#[derive(Copy, Clone, PartialEq, Eq, Debug, Structural)]
pub enum WaitOutcome {
    /// Child `pid` was reaped; `status` is what is written back for it.
    Reaped { pid: u64, status: i32 },
    /// No child waited for has exited yet: give the processor away and look again.
    Wait,
}

/// The children of `p` in `m`, each with whether it has exited.
pub open spec fn child_states(m: Map<u64, TaskNode>, p: u64) -> Seq<(u64, bool)> {
    m[p].children@.map_values(|c: u64| (c, m[c].status is Zombie))
}

impl TaskTree {
    /// The children of task `pid`, each with whether it has exited.
    pub fn children_status(&self, pid: u64) -> (r: Vec<(u64, bool)>)
        requires
            self.wf(),
            self.nodes().contains_key(pid),
            !(self.nodes()[pid].status is Zombie),
        ensures
            r@ == child_states(self.nodes(), pid),
    {
        proof {
            lemma_u64_keys_ordered();
        }
        let ghost m = self.nodes();
        let node = self.tasks.get(&pid).unwrap();
        let mut r: Vec<(u64, bool)> = Vec::new();
        let mut i: usize = 0;
        while i < node.children.len()
            invariant
                m == self.nodes(),
                tree_ok(m),
                m.contains_key(pid),
                !(m[pid].status is Zombie),
                *node == m[pid],
                i <= node.children@.len(),
                r@ == child_states(m, pid).subrange(0, i as int),
            decreases node.children@.len() - i,
        {
            let c = node.children[i];
            proof {
                assert(m.contains_key(m[pid].children@[i as int]));
            }
            let cn = self.tasks.get(&c).unwrap();
            let z = match cn.status {
                TaskStatus::Zombie => true,
                _ => false,
            };
            r.push((c, z));
            proof {
                assert(child_states(m, pid).subrange(0, i + 1) =~= child_states(m, pid).subrange(0, i as int).push(
                    (c, z),
                ));
            }
            i = i + 1;
        }
        proof {
            assert(child_states(m, pid).subrange(0, i as int) =~= child_states(m, pid));
        }
        r
    }

    /// Takes exited child `idx` of task `parent` out of the tree and out of its children,
    /// and returns the child's id and exit code.
    pub fn reap(&mut self, parent: u64, idx: usize) -> (r: (u64, i32))
        requires
            old(self).wf(),
            old(self).nodes().contains_key(parent),
            !(old(self).nodes()[parent].status is Zombie),
            idx < old(self).nodes()[parent].children@.len(),
            old(self).nodes()[old(self).nodes()[parent].children@[idx as int]].status is Zombie,
        ensures
            final(self).wf(),
            r.0 == old(self).nodes()[parent].children@[idx as int],
            r.1 == old(self).nodes()[r.0].exit_code,
            final(self).nodes().dom() == old(self).nodes().dom().remove(r.0),
            same_but_children(old(self).nodes()[parent], final(self).nodes()[parent]),
            final(self).nodes()[parent].children@ == old(self).nodes()[parent].children@.remove(idx as int),
            forall|q: u64|
                final(self).nodes().contains_key(q) && q != parent ==> #[trigger] final(self).nodes()[q] == old(
                    self,
                ).nodes()[q],
    {
        proof {
            lemma_u64_keys_ordered();
        }
        let ghost m0 = self.nodes();
        let mut pnode = self.tasks.remove(&parent).unwrap();
        let child = pnode.children.remove(idx);
        self.tasks.insert(parent, pnode);
        proof {
            assert(m0.contains_key(m0[parent].children@[idx as int]));
            assert(child != parent);
        }
        let cnode = self.tasks.remove(&child).unwrap();
        let exit_code = cnode.exit_code;
        proof {
            let m = self.nodes();
            let a = m0[parent].children@;
            assert(a.no_duplicates());
            assert(m.dom() =~= m0.dom().remove(child));
            assert forall|p: u64| m.contains_key(p) implies #[trigger] m[p].pid == p by {
                if p != parent {
                    assert(m[p] == m0[p]);
                }
            }
            assert forall|c: u64|
                #![trigger m[c].parent]
                m.contains_key(c) && m[c].parent is Some implies {
                let p = m[c].parent->0;
                &&& p != c
                &&& m.contains_key(p)
                &&& !(m[p].status is Zombie)
                &&& m[p].children@.contains(c)
            } by {
                assert(m0[c].parent == m[c].parent);
                let p = m0[c].parent->0;
                assert(m0[p].children@.contains(c));
                let i = choose|i: int| 0 <= i < m0[p].children@.len() && m0[p].children@[i] == c;
                if p == parent {
                    if i < idx {
                        assert(m[parent].children@[i] == c);
                    } else {
                        assert(i != idx);
                        assert(m[parent].children@[i - 1] == c);
                    }
                } else {
                    assert(m[p] == m0[p]);
                }
            }
            assert forall|p: u64, i: int|
                #![trigger m[p].children@[i]]
                m.contains_key(p) && !(m[p].status is Zombie) && 0 <= i < m[p].children@.len() implies {
                &&& m.contains_key(m[p].children@[i])
                &&& m[m[p].children@[i]].parent == Some(p)
            } by {
                let x = m[p].children@[i];
                if p == parent {
                    let i0 = if i < idx {
                        i
                    } else {
                        i + 1
                    };
                    assert(x == a[i0]);
                    assert(i0 != idx);
                    assert(x != child);
                    assert(m0.contains_key(a[i0]));
                } else {
                    assert(m[p] == m0[p]);
                    assert(m0.contains_key(x) && m0[x].parent == Some(p));
                    assert(x != child);
                }
                if x != parent {
                    assert(m[x] == m0[x]);
                }
            }
            assert forall|p: u64| m.contains_key(p) implies (#[trigger] m[p].children@).no_duplicates() by {
                if p == parent {
                    assert forall|i: int, j: int|
                        0 <= i < j < a.remove(idx as int).len() implies a.remove(idx as int)[i] != a.remove(
                            idx as int,
                        )[j] by {
                        let i0 = if i < idx {
                            i
                        } else {
                            i + 1
                        };
                        let j0 = if j < idx {
                            j
                        } else {
                            j + 1
                        };
                        assert(a[i0] != a[j0]);
                    }
                } else {
                    assert(m[p] == m0[p]);
                }
            }
        }
        (child, exit_code)
    }

    /// One look of `wait4(pid)` by task `current`: the decision of [`wait4_step`] on its
    /// children, and, when it names an exited child, that child reaped, with its id and
    /// the status written back for it.
    pub fn sys_wait4(&mut self, current: u64, pid: isize) -> (r: Result<WaitOutcome, Errno>)
        requires
            old(self).wf(),
            old(self).nodes().contains_key(current),
            !(old(self).nodes()[current].status is Zombie),
        ensures
            final(self).wf(),
            ({
                let cs = child_states(old(self).nodes(), current);
                match r {
                    Err(e) => e == Errno::ECHILD && forall|i: int|
                        0 <= i < cs.len() ==> !waited_for(pid, #[trigger] cs[i].0),
                    Ok(WaitOutcome::Wait) => (exists|i: int| 0 <= i < cs.len() && waited_for(pid, #[trigger] cs[i].0))
                        && forall|i: int| 0 <= i < cs.len() ==> !(waited_for(pid, #[trigger] cs[i].0) && cs[i].1),
                    Ok(WaitOutcome::Reaped { pid: c, status }) => exists|i: int|
                        0 <= i < cs.len() && cs[i].0 == c && waited_for(pid, c) && cs[i].1 && (forall|j: int|
                            0 <= j < i ==> !(waited_for(pid, #[trigger] cs[j].0) && cs[j].1)) && status == (old(
                            self,
                        ).nodes()[c].exit_code << 8u32) && final(self).nodes().dom() == old(self).nodes().dom().remove(
                            c,
                        ) && final(self).nodes()[current].children@ == old(self).nodes()[current].children@.remove(i),
                }
            }),
            !(r matches Ok(WaitOutcome::Reaped { .. })) ==> final(self).nodes() == old(self).nodes(),
    {
        let cs = self.children_status(current);
        match wait4_step(&cs, pid) {
            Err(e) => Err(e),
            Ok(WaitStep::Wait) => Ok(WaitOutcome::Wait),
            Ok(WaitStep::Reap(i)) => {
                proof {
                    assert(cs@[i as int].0 == old(self).nodes()[current].children@[i as int]);
                }
                let ghost m0 = old(self).nodes();
                let (c, exit_code) = self.reap(current, i);
                let status = wait_status(exit_code);
                proof {
                    let cs0 = child_states(m0, current);
                    assert(cs0[i as int].0 == c);
                    assert(cs0 == cs@);
                }
                Ok(WaitOutcome::Reaped { pid: c, status })
            },
        }
    }

    /// The id of task `pid`.
    pub fn sys_getpid(&self, pid: u64) -> (r: isize)
        requires
            self.wf(),
            self.nodes().contains_key(pid),
            pid <= isize::MAX,
        ensures
            r == pid,
    {
        proof {
            lemma_u64_keys_ordered();
        }
        self.tasks.get(&pid).unwrap().pid as isize
    }

    /// What `getppid` answers for task `pid`: its thread group.
    pub fn sys_getppid(&self, pid: u64) -> (r: isize)
        requires
            self.nodes().contains_key(pid),
            self.nodes()[pid].tgid <= isize::MAX,
        ensures
            r == self.nodes()[pid].tgid,
    {
        proof {
            lemma_u64_keys_ordered();
        }
        self.tasks.get(&pid).unwrap().tgid as isize
    }

    /// Task `pid` asks that `tidptr` be cleared when it exits; answers its id.
    pub fn sys_set_tid_address(&mut self, pid: u64, tidptr: u64) -> (r: isize)
        requires
            old(self).wf(),
            old(self).nodes().contains_key(pid),
            pid <= isize::MAX,
        ensures
            final(self).wf(),
            r == pid,
            final(self).nodes().dom() == old(self).nodes().dom(),
            final(self).nodes()[pid].clear_child_tid == tidptr,
            final(self).nodes()[pid].pid == old(self).nodes()[pid].pid,
            final(self).nodes()[pid].tgid == old(self).nodes()[pid].tgid,
            final(self).nodes()[pid].parent == old(self).nodes()[pid].parent,
            final(self).nodes()[pid].children@ == old(self).nodes()[pid].children@,
            final(self).nodes()[pid].status == old(self).nodes()[pid].status,
            final(self).nodes()[pid].exit_code == old(self).nodes()[pid].exit_code,
            final(self).nodes()[pid].pending_signals == old(self).nodes()[pid].pending_signals,
            final(self).nodes()[pid].sigmask == old(self).nodes()[pid].sigmask,
            final(self).nodes()[pid].cwd@ == old(self).nodes()[pid].cwd@,
            forall|q: u64| q != pid && old(self).nodes().contains_key(q) ==> final(self).nodes()[q] == old(self).nodes()[q],
    {
        proof {
            lemma_u64_keys_ordered();
        }
        let ghost m0 = self.nodes();
        let mut node = self.tasks.remove(&pid).unwrap();
        node.clear_child_tid = tidptr;
        self.tasks.insert(pid, node);
        proof {
            let m = self.nodes();
            assert(m.dom() =~= m0.dom());
            assert forall|c: u64|
                #![trigger m[c].parent]
                m.contains_key(c) && m[c].parent is Some implies {
                let p = m[c].parent->0;
                &&& p != c
                &&& m.contains_key(p)
                &&& !(m[p].status is Zombie)
                &&& m[p].children@.contains(c)
            } by {
                assert(m0[c].parent == m[c].parent);
                let p = m0[c].parent->0;
                assert(m0[p].children@ == m[p].children@);
            }
            assert forall|p: u64, i: int|
                #![trigger m[p].children@[i]]
                m.contains_key(p) && !(m[p].status is Zombie) && 0 <= i < m[p].children@.len() implies {
                &&& m.contains_key(m[p].children@[i])
                &&& m[m[p].children@[i]].parent == Some(p)
            } by {
                assert(m0[p].children@ == m[p].children@);
                let x = m[p].children@[i];
                assert(m0.contains_key(x) && m0[x].parent == Some(p));
                assert(m[x].parent == m0[x].parent);
            }
            assert forall|p: u64| m.contains_key(p) implies (#[trigger] m[p].children@).no_duplicates() by {
                assert(m0[p].children@ == m[p].children@);
            }
        }
        pid as isize
    }
}

/// The user id: always the superuser.
pub fn sys_getuid() -> (r: isize)
    ensures
        r == 0,
{
    0
}

/// The effective user id: always the superuser.
pub fn sys_geteuid() -> (r: isize)
    ensures
        r == 0,
{
    0
}

/// What `gettid` answers: always 0.
pub fn sys_gettid() -> (r: isize)
    ensures
        r == 0,
{
    0
}

/// When a process exits, the first process adopts each of its children: each names it as
/// parent and comes after the children it had, in the order the exiting process had them.
pub proof fn law_orphans_adopted(m0: Map<u64, TaskNode>, m: Map<u64, TaskNode>, pid: u64, code: i32)
    requires
        may_exit(m0, pid),
        !m0[pid].is_child_thread(),
        process_exited(m0, m, pid, code),
    ensures
        forall|c: u64| #[trigger] m0[pid].children@.contains(c) ==> m[c].parent == Some(INITPROC_PID)
            && m[INITPROC_PID].children@.contains(c),
        m[INITPROC_PID].children@.subrange(0, m0[INITPROC_PID].children@.len() as int) == m0[INITPROC_PID].children@,
        tree_ok(m),
{
    let cs = m0[pid].children@;
    let a = m0[INITPROC_PID].children@;
    assert forall|c: u64| #[trigger] cs.contains(c) implies m[c].parent == Some(INITPROC_PID)
        && m[INITPROC_PID].children@.contains(c) by {
        let j = choose|j: int| 0 <= j < cs.len() && cs[j] == c;
        assert(m[cs[j]].parent == Some(INITPROC_PID));
        assert(m[INITPROC_PID].children@[a.len() + j] == c);
    }
    assert((a + cs).subrange(0, a.len() as int) =~= a);
    lemma_process_exit_ok(m0, m, pid, code);
}

/// A process that exits stays a child of its parent, now seen exited with its code: the
/// parent's `wait4` finds it among its exited children, at the same place as before.
pub proof fn law_exit_seen_by_parent(m0: Map<u64, TaskNode>, m: Map<u64, TaskNode>, pid: u64, code: i32)
    requires
        may_exit(m0, pid),
        !m0[pid].is_child_thread(),
        m0[pid].parent is Some,
        process_exited(m0, m, pid, code),
    ensures
        ({
            let p = m0[pid].parent->0;
            &&& m.contains_key(p)
            &&& !(m[p].status is Zombie)
            &&& m[pid].parent == Some(p)
            &&& m[pid].exit_code == code
            &&& exists|i: int|
                0 <= i < child_states(m, p).len() && #[trigger] child_states(m, p)[i] == (pid, true)
                    && m0[p].children@[i] == pid
        }),
{
    let p = m0[pid].parent->0;
    let cs = m0[pid].children@;
    lemma_process_exit_ok(m0, m, pid, code);
    assert(m0[p].children@.contains(pid));
    let i = choose|i: int| 0 <= i < m0[p].children@.len() && m0[p].children@[i] == pid;
    if cs.contains(p) {
        let j = choose|j: int| 0 <= j < cs.len() && cs[j] == p;
        assert(m0[cs[j]].parent == Some(pid));
        assert(m0.contains_key(m0[pid].children@[j]));
    }
    if p == INITPROC_PID {
        assert(m[p].children@[i] == pid);
    } else if !cs.contains(p) {
        assert(m[p] == m0[p]);
    }
    assert(m[p].children@[i] == pid);
    assert(child_states(m, p)[i] == (pid, true));
}

/// Reaping a child after it exited takes it out of the tree for good: it is no longer a
/// task, nor a child of any task that has not exited.
pub proof fn law_reaped_child_gone(m: Map<u64, TaskNode>, c: u64)
    requires
        tree_ok(m),
        !m.contains_key(c),
    ensures
        forall|p: u64| m.contains_key(p) && !(m[p].status is Zombie) ==> !(#[trigger] m[p].children@).contains(c),
{
    assert forall|p: u64| m.contains_key(p) && !(m[p].status is Zombie) implies !(#[trigger] m[p].children@).contains(c) by {
        if m[p].children@.contains(c) {
            let i = choose|i: int| 0 <= i < m[p].children@.len() && m[p].children@[i] == c;
            assert(m.contains_key(m[p].children@[i]));
        }
    }
}

impl TaskTree {
    /// Task `pid`, which has not exited, changes to `status`, which is not an exit.
    pub fn set_status(&mut self, pid: u64, status: TaskStatus)
        requires
            old(self).wf(),
            old(self).nodes().contains_key(pid),
            !(old(self).nodes()[pid].status is Zombie),
            !(status is Zombie),
        ensures
            final(self).wf(),
            final(self).nodes().dom() == old(self).nodes().dom(),
            final(self).nodes()[pid].status == status,
            same_but_status(old(self).nodes()[pid], final(self).nodes()[pid]),
            forall|q: u64| q != pid && old(self).nodes().contains_key(q) ==> final(self).nodes()[q] == old(self).nodes()[q],
    {
        proof {
            lemma_u64_keys_ordered();
        }
        let ghost m0 = self.nodes();
        let mut node = self.tasks.remove(&pid).unwrap();
        node.status = status;
        self.tasks.insert(pid, node);
        proof {
            let m = self.nodes();
            assert(m.dom() =~= m0.dom());
            assert forall|c: u64|
                #![trigger m[c].parent]
                m.contains_key(c) && m[c].parent is Some implies {
                let p = m[c].parent->0;
                &&& p != c
                &&& m.contains_key(p)
                &&& !(m[p].status is Zombie)
                &&& m[p].children@.contains(c)
            } by {
                assert(m0[c].parent == m[c].parent);
                let p = m0[c].parent->0;
                assert(m0[p].children@ == m[p].children@);
            }
            assert forall|p: u64, i: int|
                #![trigger m[p].children@[i]]
                m.contains_key(p) && !(m[p].status is Zombie) && 0 <= i < m[p].children@.len() implies {
                &&& m.contains_key(m[p].children@[i])
                &&& m[m[p].children@[i]].parent == Some(p)
            } by {
                assert(m0[p].children@ == m[p].children@);
                let x = m[p].children@[i];
                assert(m0.contains_key(x) && m0[x].parent == Some(p));
                assert(m[x].parent == m0[x].parent);
            }
            assert forall|p: u64| m.contains_key(p) implies (#[trigger] m[p].children@).no_duplicates() by {
                assert(m0[p].children@ == m[p].children@);
            }
        }
    }
}

/// Task `pid` gives the processor away and is ready to run again; answers 0.
pub fn suspend_current_and_run_next(tree: &mut TaskTree, pid: u64) -> (r: isize)
    requires
        old(tree).wf(),
        old(tree).nodes().contains_key(pid),
        !(old(tree).nodes()[pid].status is Zombie),
    ensures
        r == 0,
        final(tree).wf(),
        final(tree).nodes().dom() == old(tree).nodes().dom(),
        final(tree).nodes()[pid].status == TaskStatus::Ready,
        same_but_status(old(tree).nodes()[pid], final(tree).nodes()[pid]),
        forall|q: u64| q != pid && old(tree).nodes().contains_key(q) ==> final(tree).nodes()[q] == old(tree).nodes()[q],
{
    tree.set_status(pid, TaskStatus::Ready);
    0
}

/// Task `pid` sleeps from `sleep_time` for `duration`: it is hanging, and the manager wakes
/// it at `sleep_time + duration`.
pub fn hanging_current_and_run_next(
    tree: &mut TaskTree,
    manager: &mut TaskManager,
    pid: u64,
    sleep_time: u64,
    duration: u64,
)
    requires
        old(tree).wf(),
        old(tree).nodes().contains_key(pid),
        !(old(tree).nodes()[pid].status is Zombie),
        sleep_time + duration <= u64::MAX,
    ensures
        final(tree).wf(),
        final(tree).nodes().dom() == old(tree).nodes().dom(),
        final(tree).nodes()[pid].status == TaskStatus::Hanging,
        same_but_status(old(tree).nodes()[pid], final(tree).nodes()[pid]),
        forall|q: u64| q != pid && old(tree).nodes().contains_key(q) ==> final(tree).nodes()[q] == old(tree).nodes()[q],
        final(manager).hanging() == old(manager).hanging().insert(
            crate::scheduler::HangingTask { wake_up_time: (sleep_time + duration) as u64, task: pid },
        ),
        final(manager).ready() == old(manager).ready(),
        final(manager).waiting() == old(manager).waiting(),
{
    tree.set_status(pid, TaskStatus::Hanging);
    manager.hang(sleep_time, duration, pid);
}

/// Task `pid` blocks on a futex: it is blocking, at the end of the manager's blocked queue.
pub fn block_current_and_run_next(tree: &mut TaskTree, manager: &mut TaskManager, pid: u64)
    requires
        old(tree).wf(),
        old(tree).nodes().contains_key(pid),
        !(old(tree).nodes()[pid].status is Zombie),
    ensures
        final(tree).wf(),
        final(tree).nodes().dom() == old(tree).nodes().dom(),
        final(tree).nodes()[pid].status == TaskStatus::Blocking,
        same_but_status(old(tree).nodes()[pid], final(tree).nodes()[pid]),
        forall|q: u64| q != pid && old(tree).nodes().contains_key(q) ==> final(tree).nodes()[q] == old(tree).nodes()[q],
        final(manager).waiting() == old(manager).waiting().push(pid),
        final(manager).ready() == old(manager).ready(),
        final(manager).hanging() == old(manager).hanging(),
{
    tree.set_status(pid, TaskStatus::Blocking);
    manager.block_task(pid);
}

/// `b` is `a` but for its state.
pub open spec fn same_but_status(a: TaskNode, b: TaskNode) -> bool {
    &&& b.pid == a.pid
    &&& b.tgid == a.tgid
    &&& b.parent == a.parent
    &&& b.children@ == a.children@
    &&& b.exit_code == a.exit_code
    &&& b.clear_child_tid == a.clear_child_tid
    &&& b.pending_signals == a.pending_signals
    &&& b.sigmask == a.sigmask
    &&& b.cwd@ == a.cwd@
}

/// `b` is `a` but for its signal state.
pub open spec fn same_but_signals(a: TaskNode, b: TaskNode) -> bool {
    &&& b.pid == a.pid
    &&& b.tgid == a.tgid
    &&& b.parent == a.parent
    &&& b.children@ == a.children@
    &&& b.status == a.status
    &&& b.exit_code == a.exit_code
    &&& b.clear_child_tid == a.clear_child_tid
    &&& b.cwd@ == a.cwd@
}

/// Whether a signal can be sent to task `pid`: it is a task that has not exited.
pub open spec fn reachable(m: Map<u64, TaskNode>, pid: u64) -> bool {
    m.contains_key(pid) && !(m[pid].status is Zombie)
}

/// The pending signals of a reachable task after signal `signal` (from 1 to 64) is sent
/// to it: its bit is added when it names a signal.
pub open spec fn sent(m: Map<u64, TaskNode>, m2: Map<u64, TaskNode>, pid: u64, signal: u32) -> bool {
    let bit = 1u64 << ((signal - 1) as u32);
    &&& m2.dom() == m.dom()
    &&& same_but_signals(m[pid], m2[pid])
    &&& m2[pid].sigmask == m[pid].sigmask
    &&& m2[pid].pending_signals.bits == m[pid].pending_signals.bits | bit
    &&& forall|q: u64| q != pid && m.contains_key(q) ==> #[trigger] m2[q] == m[q]
}

impl TaskTree {
    /// Sets the pending and blocked signals of task `pid`.
    fn set_signals(&mut self, pid: u64, pending: SigMask, mask: SigMask)
        requires
            old(self).wf(),
            old(self).nodes().contains_key(pid),
        ensures
            final(self).wf(),
            final(self).nodes().dom() == old(self).nodes().dom(),
            same_but_signals(old(self).nodes()[pid], final(self).nodes()[pid]),
            final(self).nodes()[pid].pending_signals == pending,
            final(self).nodes()[pid].sigmask == mask,
            forall|q: u64| q != pid && old(self).nodes().contains_key(q) ==> final(self).nodes()[q] == old(self).nodes()[q],
    {
        proof {
            lemma_u64_keys_ordered();
        }
        let ghost m0 = self.nodes();
        let mut node = self.tasks.remove(&pid).unwrap();
        node.pending_signals = pending;
        node.sigmask = mask;
        self.tasks.insert(pid, node);
        proof {
            let m = self.nodes();
            assert(m.dom() =~= m0.dom());
            assert forall|c: u64|
                #![trigger m[c].parent]
                m.contains_key(c) && m[c].parent is Some implies {
                let p = m[c].parent->0;
                &&& p != c
                &&& m.contains_key(p)
                &&& !(m[p].status is Zombie)
                &&& m[p].children@.contains(c)
            } by {
                assert(m0[c].parent == m[c].parent);
                let p = m0[c].parent->0;
                assert(m0[p].children@ == m[p].children@);
            }
            assert forall|p: u64, i: int|
                #![trigger m[p].children@[i]]
                m.contains_key(p) && !(m[p].status is Zombie) && 0 <= i < m[p].children@.len() implies {
                &&& m.contains_key(m[p].children@[i])
                &&& m[m[p].children@[i]].parent == Some(p)
            } by {
                assert(m0[p].children@ == m[p].children@);
                let x = m[p].children@[i];
                assert(m0.contains_key(x) && m0[x].parent == Some(p));
                assert(m[x].parent == m0[x].parent);
            }
            assert forall|p: u64| m.contains_key(p) implies (#[trigger] m[p].children@).no_duplicates() by {
                assert(m0[p].children@ == m[p].children@);
            }
        }
    }

    /// Sends `signal` to the task `target` when it can be reached; the result of
    /// [`kill_decision`].
    fn send_signal(&mut self, target: u64, signal: u32, is_tkill: bool) -> (r: Result<isize, Errno>)
        requires
            old(self).wf(),
            signal <= 64,
        ensures
            final(self).wf(),
            ({
                let m0 = old(self).nodes();
                let m = final(self).nodes();
                let bit = 1u64 << ((signal - 1) as u32);
                if signal == 0 {
                    r == Ok::<isize, Errno>(0) && m == m0
                } else if !reachable(m0, target) {
                    r == (if is_tkill {
                        Err::<isize, Errno>(Errno::ESRCH)
                    } else {
                        Ok::<isize, Errno>(0)
                    }) && m == m0
                } else if bit & !SIGMASK_ALL == 0 {
                    r == Ok::<isize, Errno>(0) && sent(m0, m, target, signal)
                } else {
                    r == Err::<isize, Errno>(Errno::EINVAL) && m == m0
                }
            }),
    {
        let found = match self.get(target) {
            Some(n) => match n.status {
                TaskStatus::Zombie => false,
                _ => true,
            },
            None => false,
        };
        match kill_decision(signal, found, is_tkill) {
            Err(e) => Err(e),
            Ok(None) => Ok(0),
            Ok(Some(flag)) => {
                let node = self.get(target).unwrap();
                let mut pending = node.pending_signals;
                let mask = node.sigmask;
                pending.add_other(flag);
                self.set_signals(target, pending, mask);
                proof {
                    let m = self.nodes();
                    let m0 = old(self).nodes();
                    assert(m.dom() =~= m0.dom());
                }
                Ok(0)
            },
        }
    }

    /// `kill(pid, signal)`: adds `signal` (up to 64) to the pending signals of task `pid`;
    /// nothing for signal 0 or when no such task runs; `EINVAL` when the signal's bit
    /// names no signal.
    pub fn sys_kill(&mut self, pid: u64, signal: u32) -> (r: Result<isize, Errno>)
        requires
            old(self).wf(),
            signal <= 64,
        ensures
            final(self).wf(),
            ({
                let m0 = old(self).nodes();
                let m = final(self).nodes();
                let bit = 1u64 << ((signal - 1) as u32);
                if signal == 0 || !reachable(m0, pid) {
                    r == Ok::<isize, Errno>(0) && m == m0
                } else if bit & !SIGMASK_ALL == 0 {
                    r == Ok::<isize, Errno>(0) && sent(m0, m, pid, signal)
                } else {
                    r == Err::<isize, Errno>(Errno::EINVAL) && m == m0
                }
            }),
    {
        self.send_signal(pid, signal, false)
    }

    /// `tkill(tid, signal)` by task `current`: as `kill` on task `tid` (`current` for 0),
    /// but `ESRCH` when no such task runs.
    pub fn sys_tkill(&mut self, current: u64, tid: u64, signal: u32) -> (r: Result<isize, Errno>)
        requires
            old(self).wf(),
            signal <= 64,
        ensures
            final(self).wf(),
            ({
                let m0 = old(self).nodes();
                let m = final(self).nodes();
                let target = if tid == 0 {
                    current
                } else {
                    tid
                };
                let bit = 1u64 << ((signal - 1) as u32);
                if signal == 0 {
                    r == Ok::<isize, Errno>(0) && m == m0
                } else if !reachable(m0, target) {
                    r == Err::<isize, Errno>(Errno::ESRCH) && m == m0
                } else if bit & !SIGMASK_ALL == 0 {
                    r == Ok::<isize, Errno>(0) && sent(m0, m, target, signal)
                } else {
                    r == Err::<isize, Errno>(Errno::EINVAL) && m == m0
                }
            }),
    {
        let target = if tid == 0 {
            current
        } else {
            tid
        };
        self.send_signal(target, signal, true)
    }

    /// `sigprocmask(how, set)` by task `pid`: when a set is given, the blocked signals become
    /// what [`sigprocmask_apply`] makes of them. Answers the blocked signals before, for the
    /// caller to copy out.
    pub fn sys_sigprocmask(&mut self, pid: u64, how: usize, set: Option<SigMask>) -> (r: SigMask)
        requires
            old(self).wf(),
            old(self).nodes().contains_key(pid),
            set is Some ==> how <= 2,
        ensures
            final(self).wf(),
            r == old(self).nodes()[pid].sigmask,
            final(self).nodes().dom() == old(self).nodes().dom(),
            same_but_signals(old(self).nodes()[pid], final(self).nodes()[pid]),
            final(self).nodes()[pid].pending_signals == old(self).nodes()[pid].pending_signals,
            final(self).nodes()[pid].sigmask.bits == match set {
                Some(s) => mask_after(r.bits, how, s.bits),
                None => r.bits,
            },
            forall|q: u64| q != pid && old(self).nodes().contains_key(q) ==> final(self).nodes()[q] == old(self).nodes()[q],
    {
        let node = self.get(pid).unwrap();
        let old_mask = node.sigmask;
        let pending = node.pending_signals;
        match set {
            Some(s) => {
                let mask = sigprocmask_apply(old_mask, how, s);
                self.set_signals(pid, pending, mask);
            },
            None => {
                self.set_signals(pid, pending, old_mask);
            },
        }
        old_mask
    }
}

/// A copy of the bytes `v`.
fn copy_bytes(v: &Vec<u8>) -> (r: Vec<u8>)
    ensures
        r@ == v@,
{
    let mut r: Vec<u8> = Vec::new();
    let mut i: usize = 0;
    while i < v.len()
        invariant
            i <= v@.len(),
            r@ == v@.take(i as int),
        decreases v@.len() - i,
    {
        r.push(v[i]);
        proof {
            assert(v@.take(i + 1) =~= v@.take(i as int).push(v@[i as int]));
        }
        i = i + 1;
    }
    proof {
        assert(v@.take(v@.len() as int) =~= v@);
    }
    r
}

/// The flags that `clone` accepts from task `parent` for child `child`: known flags (past
/// the exit signal in the low byte), and, for a thread, a child id not below the parent's.
pub open spec fn clone_ok(flags: u64, parent: u64, child: u64) -> bool {
    &&& (flags & !0xffu64) & !CloneFlags::ALL == 0
    &&& has(flags, CloneFlags::THREAD) ==> parent <= child
}

/// What `clone` by task `parent` did to the tree (`t0` to `t1`) and the scheduler (`m0` to
/// `m1`) for child `child` with plan `plan`: the child joins the tree as [`TaskTree::fork`]
/// makes it, a thread when the plan asks for one; its exit clears `ctid` when the plan asks
/// for it; it is put at the end of the ready queue.
pub open spec fn fork_done(
    t0: Map<u64, TaskNode>,
    t1: Map<u64, TaskNode>,
    m0: TaskManager,
    m1: TaskManager,
    parent: u64,
    child: u64,
    ctid: u64,
    plan: ClonePlan,
) -> bool {
    &&& t1.dom() == t0.dom().insert(child)
    &&& t1[child].pid == child
    &&& t1[child].tgid == plan.tgid
    &&& t1[child].parent == Some(parent)
    &&& t1[child].children@.len() == 0
    &&& t1[child].status == TaskStatus::Ready
    &&& t1[child].exit_code == 0
    &&& t1[child].clear_child_tid == if plan.child_cleartid {
        ctid
    } else {
        0
    }
    &&& t1[child].pending_signals.bits == 0
    &&& t1[child].sigmask == t0[parent].sigmask
    &&& t1[child].cwd@ == t0[parent].cwd@
    &&& t1[parent].children@ == t0[parent].children@.push(child)
    &&& same_but_children(t0[parent], t1[parent])
    &&& forall|q: u64| q != parent && q != child && t0.contains_key(q) ==> t1[q] == t0[q]
    &&& m1.ready() == m0.ready().push(child)
    &&& m1.waiting() == m0.waiting()
    &&& m1.hanging() == m0.hanging()
}

/// `clone(flags, .., ctid)` by task `parent`, the child having id `child`: see
/// [`fork_done`]. Answers the plan of [`clone_plan`], for the caller to give the child its
/// address space, files, signal actions and trap context, and the child's id. An unknown
/// flag is a fatal error.
pub fn sys_do_fork(
    tree: &mut TaskTree,
    manager: &mut TaskManager,
    parent: u64,
    child: u64,
    flags: u64,
    ctid: u64,
) -> (r: (ClonePlan, isize))
    requires
        old(tree).wf(),
        old(tree).nodes().contains_key(parent),
        !(old(tree).nodes()[parent].status is Zombie),
        !old(tree).nodes().contains_key(child),
        old(tree).nodes()[parent].children@.len() < usize::MAX,
        child <= isize::MAX,
        clone_ok(flags, parent, child),
    ensures
        final(tree).wf(),
        r.0 == plan_of(flags, parent, child),
        r.1 == child,
        fork_done(old(tree).nodes(), final(tree).nodes(), *old(manager), *final(manager), parent, child, ctid, r.0),
{
    let plan = clone_plan(flags, parent, child).unwrap();
    tree.fork(parent, child, plan.thread);
    if plan.child_cleartid {
        tree.sys_set_tid_address(child, ctid);
    }
    manager.add(child);
    (plan, child as isize)
}

/// The descriptor table that a child made with plan `plan` gets from its parent's table
/// `parent`: `None` when it shares the parent's (`CLONE_FILES`), else a copy of it.
pub fn child_fd_table<F: Copy>(plan: &ClonePlan, parent: &FDTable<F>) -> (r: Option<FDTable<F>>)
    ensures
        r is None <==> plan.share_files,
        r matches Some(t) ==> t@ == parent@,
{
    if plan.share_files {
        None
    } else {
        Some(copy_fd_table(parent))
    }
}

/// `clone(flags, .., ctid)` by task `parent`, whose descriptor table is `fd_table`, the child
/// having id `child`: the tree and the scheduler change as [`sys_do_fork`] changes them
/// (the child's working directory is the parent's), and the child's descriptor table is
/// the parent's, shared (`None`) when the plan shares files (`CLONE_FILES`), else a copy. Answers
/// the plan, the child's id and the child's own table.
pub fn fork_task<F: Copy>(
    tree: &mut TaskTree,
    manager: &mut TaskManager,
    parent: u64,
    child: u64,
    flags: u64,
    ctid: u64,
    fd_table: &FDTable<F>,
) -> (r: (ClonePlan, isize, Option<FDTable<F>>))
    requires
        old(tree).wf(),
        old(tree).nodes().contains_key(parent),
        !(old(tree).nodes()[parent].status is Zombie),
        !old(tree).nodes().contains_key(child),
        old(tree).nodes()[parent].children@.len() < usize::MAX,
        child <= isize::MAX,
        clone_ok(flags, parent, child),
    ensures
        final(tree).wf(),
        r.0 == plan_of(flags, parent, child),
        r.1 == child,
        fork_done(old(tree).nodes(), final(tree).nodes(), *old(manager), *final(manager), parent, child, ctid, r.0),
        r.2 is None <==> r.0.share_files,
        r.2 matches Some(t) ==> t@ == fd_table@,
{
    let (plan, id) = sys_do_fork(tree, manager, parent, child, flags, ctid);
    let files = child_fd_table(&plan, fd_table);
    (plan, id, files)
}

impl TaskTree {
    /// Adds `signal` to the pending signals of task `pid`.
    pub fn current_add_signal(&mut self, pid: u64, signal: SigMask)
        requires
            old(self).wf(),
            old(self).nodes().contains_key(pid),
        ensures
            final(self).wf(),
            final(self).nodes().dom() == old(self).nodes().dom(),
            same_but_signals(old(self).nodes()[pid], final(self).nodes()[pid]),
            final(self).nodes()[pid].sigmask == old(self).nodes()[pid].sigmask,
            final(self).nodes()[pid].pending_signals.bits == old(self).nodes()[pid].pending_signals.bits | signal.bits,
            forall|q: u64| q != pid && old(self).nodes().contains_key(q) ==> final(self).nodes()[q] == old(self).nodes()[q],
    {
        let node = self.get(pid).unwrap();
        let mut pending = node.pending_signals;
        let mask = node.sigmask;
        pending.add_other(signal);
        self.set_signals(pid, pending, mask);
    }

    /// `exit(code)` by task `pid`: see [`TaskTree::exit_current_and_run_next`].
    pub fn sys_exit(&mut self, pid: u64, exit_code: i32) -> (r: ExitAction)
        requires
            may_exit(old(self).nodes(), pid),
        ensures
            final(self).wf(),
            r.is_child_thread == old(self).nodes()[pid].is_child_thread(),
            r.clear_child_tid == if old(self).nodes()[pid].clear_child_tid != 0 {
                Some(old(self).nodes()[pid].clear_child_tid)
            } else {
                None::<u64>
            },
            !r.is_child_thread ==> process_exited(old(self).nodes(), final(self).nodes(), pid, exit_code),
            r.is_child_thread ==> exists|k: int| thread_exited(old(self).nodes(), final(self).nodes(), pid, k),
    {
        self.exit_current_and_run_next(pid, exit_code)
    }

    /// `exit_group(code)` by task `pid`: as `exit`, only the calling task exits.
    pub fn sys_exit_group(&mut self, pid: u64, exit_code: i32) -> (r: ExitAction)
        requires
            may_exit(old(self).nodes(), pid),
        ensures
            final(self).wf(),
            r.is_child_thread == old(self).nodes()[pid].is_child_thread(),
            r.clear_child_tid == if old(self).nodes()[pid].clear_child_tid != 0 {
                Some(old(self).nodes()[pid].clear_child_tid)
            } else {
                None::<u64>
            },
            !r.is_child_thread ==> process_exited(old(self).nodes(), final(self).nodes(), pid, exit_code),
            r.is_child_thread ==> exists|k: int| thread_exited(old(self).nodes(), final(self).nodes(), pid, k),
    {
        self.exit_current_and_run_next(pid, exit_code)
    }
}

/// `sched_yield` by task `pid`: it gives the processor away, ready to run again. Answers 0.
pub fn sys_sched_yield(tree: &mut TaskTree, pid: u64) -> (r: isize)
    requires
        old(tree).wf(),
        old(tree).nodes().contains_key(pid),
        !(old(tree).nodes()[pid].status is Zombie),
    ensures
        r == 0,
        final(tree).wf(),
        final(tree).nodes().dom() == old(tree).nodes().dom(),
        final(tree).nodes()[pid].status == TaskStatus::Ready,
        same_but_status(old(tree).nodes()[pid], final(tree).nodes()[pid]),
        forall|q: u64| q != pid && old(tree).nodes().contains_key(q) ==> final(tree).nodes()[q] == old(tree).nodes()[q],
{
    suspend_current_and_run_next(tree, pid)
}

/// Starts the first process, with id [`INITPROC_PID`]: it joins the tree as a root and the
/// end of the ready queue.
pub fn add_initproc(tree: &mut TaskTree, manager: &mut TaskManager)
    requires
        old(tree).wf(),
        !old(tree).nodes().contains_key(INITPROC_PID),
    ensures
        final(tree).wf(),
        final(tree).nodes().dom() == old(tree).nodes().dom().insert(INITPROC_PID),
        final(tree).nodes()[INITPROC_PID].parent is None,
        final(tree).nodes()[INITPROC_PID].tgid == INITPROC_PID,
        final(tree).nodes()[INITPROC_PID].status == TaskStatus::Ready,
        final(tree).nodes()[INITPROC_PID].children@.len() == 0,
        forall|q: u64| q != INITPROC_PID && old(tree).nodes().contains_key(q) ==> final(tree).nodes()[q] == old(tree).nodes()[q],
        final(manager).ready() == old(manager).ready().push(INITPROC_PID),
        final(manager).waiting() == old(manager).waiting(),
        final(manager).hanging() == old(manager).hanging(),
{
    tree.add_root(INITPROC_PID);
    manager.add(INITPROC_PID);
}

} // verus!
