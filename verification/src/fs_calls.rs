//! The decisions of the file system calls that do not depend on the file system itself:
//! which times `utimensat` sets and on what, and which descriptors `pselect6` finds ready.
use vstd::prelude::*;
use crate::errno::Errno;
use crate::user_buffer::UserBuffer;
use crate::fd_table::FDTable;

verus! {

/// The directory descriptor that stands for the current working directory.
pub const AT_FDCWD: isize = -100;

/// The nanoseconds value that asks for the current time.
pub const UTIME_NOW: u64 = 0x3fff_ffff;

/// The nanoseconds value that asks to leave a time as it is.
pub const UTIME_OMIT: u64 = 0x3fff_fffe;

/// A time as seconds and nanoseconds.
#[derive(Copy, Clone, PartialEq, Eq, Debug, Structural)]
pub struct TimeSpec {
    pub tv_sec: u64,
    pub tv_nsec: u64,
}

/// The access and modification times (seconds) to record on a file; 0 leaves a time as it
/// is.
#[derive(Copy, Clone, PartialEq, Eq, Debug, Structural)]
pub struct InodeTime {
    pub access_time: u64,
    pub modify_time: u64,
}

/// The seconds that one time of `utimensat` asks for, `now` being the current time.
pub open spec fn time_asked(t: TimeSpec, now: u64) -> u64 {
    if t.tv_nsec == UTIME_NOW {
        now
    } else if t.tv_nsec == UTIME_OMIT {
        0
    } else {
        t.tv_sec
    }
}

/// The times that `utimensat` records: none (both 0) when no times are given, else for
/// each of the access and modification times the current time (`UTIME_NOW`), nothing
/// (`UTIME_OMIT`) or the seconds given.
pub fn utimensat_times(times: Option<(TimeSpec, TimeSpec)>, now: u64) -> (r: InodeTime)
    ensures
        r == (match times {
            None => InodeTime { access_time: 0, modify_time: 0 },
            Some((a, m)) => InodeTime { access_time: time_asked(a, now), modify_time: time_asked(m, now) },
        }),
{
    let mut info = InodeTime { access_time: 0, modify_time: 0 };
    match times {
        Some((t0, t1)) => {
            info.access_time = if t0.tv_nsec == UTIME_NOW {
                now
            } else if t0.tv_nsec == UTIME_OMIT {
                0
            } else {
                t0.tv_sec
            };
            info.modify_time = if t1.tv_nsec == UTIME_NOW {
                now
            } else if t1.tv_nsec == UTIME_OMIT {
                0
            } else {
                t1.tv_sec
            };
        },
        None => {},
    }
    info
}

/// What `utimensat` works on.
#[derive(Copy, Clone, PartialEq, Eq, Debug, Structural)]
pub enum UtimeTarget<F> {
    /// The path given, from the working directory (opened, created if missing).
    Path,
    /// The open file of the directory descriptor.
    File(F),
    /// Nothing: the call succeeds without effect.
    Nothing,
}

/// What `utimensat(dirfd, pathname)` works on, `has_path` telling whether a path is
/// given: the path from the working directory when `dirfd` is `AT_FDCWD`; else the open file
/// of `dirfd`, nothing when `dirfd` is out of the table, and `DISCARD` when its entry is
/// empty. It is a fatal error (not implemented) on `AT_FDCWD` without a path and on another
/// descriptor with a path.
pub fn utimensat_target<F: Copy>(dirfd: isize, has_path: bool, fd_table: &FDTable<F>) -> (r: Result<
    UtimeTarget<F>,
    Errno,
>)
    requires
        dirfd == AT_FDCWD ==> has_path,
        dirfd != AT_FDCWD ==> !has_path,
    ensures
        r == (if dirfd == AT_FDCWD {
            Ok(UtimeTarget::Path)
        } else if dirfd < 0 || dirfd >= fd_table@.len() {
            Ok(UtimeTarget::Nothing)
        } else {
            match fd_table@[dirfd as int] {
                Some(f) => Ok(UtimeTarget::File(f)),
                None => Err(Errno::DISCARD),
            }
        }),
{
    if dirfd == AT_FDCWD {
        return Ok(UtimeTarget::Path);
    }
    if dirfd < 0 || dirfd as usize >= fd_table.len() {
        return Ok(UtimeTarget::Nothing);
    }
    match fd_table[dirfd as usize] {
        Some(f) => Ok(UtimeTarget::File(f)),
        None => Err(Errno::DISCARD),
    }
}


/// A set of file descriptors below 1024, as `select` passes it: bit `fd % 8` of byte
/// `fd / 8` for descriptor `fd`.
pub struct FdSet {
    pub bytes: Vec<u8>,
}

/// Whether bit `k` of byte `b` is set.
pub open spec fn bit_set(b: u8, k: u8) -> bool {
    (b >> k) & 1u8 == 1u8
}

/// Setting bit `k` of a byte sets it and leaves the others.
proof fn lemma_set_bit(b: u8, k: u8, j: u8)
    requires
        k < 8,
        j < 8,
    ensures
        bit_set(b | (1u8 << k), j) == (j == k || bit_set(b, j)),
        bit_set(b & !(1u8 << k), j) == (j != k && bit_set(b, j)),
{
    assert(k < 8 && j < 8 ==> (((b | (1u8 << k)) >> j) & 1u8 == 1u8) == (j == k || (b >> j) & 1u8 == 1u8) && (((b
        & !(1u8 << k)) >> j) & 1u8 == 1u8) == (j != k && (b >> j) & 1u8 == 1u8)) by (bit_vector);
}

/// No bit of the zero byte is set.
proof fn lemma_zero_byte(j: u8)
    requires
        j < 8,
    ensures
        !bit_set(0u8, j),
{
    assert(j < 8 ==> (0u8 >> j) & 1u8 != 1u8) by (bit_vector);
}

impl FdSet {
    /// The set is 128 bytes long.
    pub open spec fn wf(&self) -> bool {
        self.bytes@.len() == 128
    }

    /// Whether the set holds descriptor `fd`.
    pub open spec fn holds(&self, fd: int) -> bool {
        0 <= fd < 1024 && bit_set(self.bytes@[fd / 8], (fd % 8) as u8)
    }

    /// The number of descriptors below `n` that the set holds.
    pub open spec fn count_below(&self, n: int) -> nat
        decreases n,
    {
        if n <= 0 {
            0
        } else {
            self.count_below(n - 1) + (if self.holds(n - 1) {
                1nat
            } else {
                0nat
            })
        }
    }

    /// The empty set.
    pub fn new() -> (r: FdSet)
        ensures
            r.wf(),
            forall|fd: int| !r.holds(fd),
    {
        let mut bytes: Vec<u8> = Vec::new();
        let mut i: usize = 0;
        while i < 128
            invariant
                i <= 128,
                bytes@ == Seq::new(i as nat, |j: int| 0u8),
            decreases 128 - i,
        {
            bytes.push(0);
            i = i + 1;
            proof {
                assert(bytes@ =~= Seq::new(i as nat, |j: int| 0u8));
            }
        }
        let r = FdSet { bytes };
        proof {
            assert forall|fd: int| !r.holds(fd) by {
                if 0 <= fd < 1024 {
                    lemma_zero_byte((fd % 8) as u8);
                }
            }
        }
        r
    }

    /// The set whose bytes are the first 128 of `bytes`, the missing ones 0.
    pub fn from_bytes(bytes: &[u8]) -> (r: FdSet)
        ensures
            r.wf(),
            forall|i: int| 0 <= i < 128 ==> r.bytes@[i] == (if i < bytes@.len() {
                bytes@[i]
            } else {
                0u8
            }),
    {
        let mut v: Vec<u8> = Vec::new();
        let mut i: usize = 0;
        while i < 128
            invariant
                i <= 128,
                v@.len() == i,
                forall|j: int| 0 <= j < i ==> v@[j] == (if j < bytes@.len() {
                    bytes@[j]
                } else {
                    0u8
                }),
            decreases 128 - i,
        {
            if i < bytes.len() {
                v.push(bytes[i]);
            } else {
                v.push(0);
            }
            i = i + 1;
        }
        FdSet { bytes: v }
    }

    /// The 128 bytes of the set.
    pub fn as_bytes(&self) -> (r: Vec<u8>)
        ensures
            r@ == self.bytes@,
    {
        self.bytes.clone()
    }

    /// Whether the set holds descriptor `fd`.
    pub fn is_set(&self, fd: usize) -> (r: bool)
        requires
            self.wf(),
        ensures
            r == self.holds(fd as int),
    {
        if fd >= 1024 {
            return false;
        }
        let b = self.bytes[fd / 8];
        (b >> ((fd % 8) as u8)) & 1 == 1
    }

    /// Adds descriptor `fd`. A descriptor of 1024 or more is a fatal error (it lies out of the
    /// set).
    pub fn set_fd(&mut self, fd: usize)
        requires
            old(self).wf(),
            fd < 1024,
        ensures
            final(self).wf(),
            forall|g: int| #[trigger] final(self).holds(g) == (g == fd || old(self).holds(g)),
    {
        let k = (fd % 8) as u8;
        let b = self.bytes[fd / 8];
        self.bytes.set(fd / 8, b | (1u8 << k));
        proof {
            assert forall|g: int| #[trigger] self.holds(g) == (g == fd || old(self).holds(g)) by {
                if 0 <= g < 1024 {
                    lemma_set_bit(b, k, (g % 8) as u8);
                    if g / 8 == fd / 8 && g % 8 == fd % 8 {
                        assert(g == fd);
                    }
                }
            }
        }
    }

    /// Removes descriptor `fd`. A descriptor of 1024 or more is a fatal error (it lies out of
    /// the set).
    pub fn clear_fd(&mut self, fd: usize)
        requires
            old(self).wf(),
            fd < 1024,
        ensures
            final(self).wf(),
            forall|g: int| #[trigger] final(self).holds(g) == (g != fd && old(self).holds(g)),
    {
        let k = (fd % 8) as u8;
        let b = self.bytes[fd / 8];
        self.bytes.set(fd / 8, b & !(1u8 << k));
        proof {
            assert forall|g: int| #[trigger] self.holds(g) == (g != fd && old(self).holds(g)) by {
                if 0 <= g < 1024 {
                    lemma_set_bit(b, k, (g % 8) as u8);
                    if g / 8 == fd / 8 && g % 8 == fd % 8 {
                        assert(g == fd);
                    }
                }
            }
        }
    }

    /// Empties the set.
    pub fn clear_all(&mut self)
        ensures
            final(self).wf(),
            forall|g: int| !final(self).holds(g),
    {
        *self = FdSet::new();
    }

    /// The number of descriptors in the set.
    pub fn count(&self) -> (r: usize)
        requires
            self.wf(),
        ensures
            r == self.count_below(1024),
    {
        let mut n: usize = 0;
        let mut fd: usize = 0;
        while fd < 1024
            invariant
                self.wf(),
                fd <= 1024,
                n == self.count_below(fd as int),
                n <= fd,
            decreases 1024 - fd,
        {
            if self.is_set(fd) {
                n = n + 1;
            }
            fd = fd + 1;
        }
        n
    }

    /// The descriptors of the set, in increasing order.
    pub fn get_fd_vec(&self) -> (r: Vec<usize>)
        requires
            self.wf(),
        ensures
            forall|i: int, j: int| 0 <= i < j < r@.len() ==> r@[i] < r@[j],
            forall|i: int| 0 <= i < r@.len() ==> self.holds(#[trigger] r@[i] as int),
            forall|fd: int| self.holds(fd) ==> r@.contains(fd as usize),
    {
        let mut v: Vec<usize> = Vec::new();
        let mut fd: usize = 0;
        while fd < 1024
            invariant
                self.wf(),
                fd <= 1024,
                forall|i: int, j: int| 0 <= i < j < v@.len() ==> v@[i] < v@[j],
                forall|i: int| 0 <= i < v@.len() ==> v@[i] < fd && self.holds(#[trigger] v@[i] as int),
                forall|g: int| 0 <= g < fd && self.holds(g) ==> v@.contains(g as usize),
            decreases 1024 - fd,
        {
            if self.is_set(fd) {
                let ghost v0 = v@;
                v.push(fd);
                proof {
                    assert(v@[v@.len() - 1] == fd);
                    assert forall|g: int| 0 <= g < fd + 1 && self.holds(g) implies v@.contains(g as usize) by {
                        if g < fd {
                            assert(v0.contains(g as usize));
                            let k = choose|k: int| 0 <= k < v0.len() && v0[k] == g as usize;
                            assert(v@[k] == g as usize);
                        } else {
                            assert(v@[v@.len() - 1] == g as usize);
                        }
                    }
                }
            }
            fd = fd + 1;
        }
        v
    }
}

/// Whether descriptor `fd` takes part in a `select` pass over `nfds` descriptors: it is
/// below `nfds` and not the mark 1024 of a descriptor found ready before.
pub open spec fn live(fd: usize, nfds: usize) -> bool {
    fd < nfds && fd != 1024
}

/// Whether a taking-part descriptor among the first `i` of `fds` is out of `table` or has no
/// open file there.
pub open spec fn any_bad(fds: Seq<usize>, nfds: usize, table: Seq<Option<bool>>, i: int) -> bool
    decreases i,
{
    if i <= 0 {
        false
    } else {
        any_bad(fds, nfds, table, i - 1) || (live(fds[i - 1], nfds) && (fds[i - 1] >= table.len() || table[fds[i
            - 1] as int] is None))
    }
}

/// Whether a taking-part descriptor among the first `i` of `fds` is not ready.
pub open spec fn any_not_ready(fds: Seq<usize>, nfds: usize, table: Seq<Option<bool>>, i: int) -> bool
    decreases i,
{
    if i <= 0 {
        false
    } else {
        any_not_ready(fds, nfds, table, i - 1) || (live(fds[i - 1], nfds) && table[fds[i - 1] as int]
            == Some(false))
    }
}

/// How many taking-part descriptors among the first `i` of `fds` are ready.
pub open spec fn ready_count(fds: Seq<usize>, nfds: usize, table: Seq<Option<bool>>, i: int) -> nat
    decreases i,
{
    if i <= 0 {
        0
    } else {
        ready_count(fds, nfds, table, i - 1) + (if live(fds[i - 1], nfds) && table[fds[i - 1] as int] == Some(
            true,
        ) {
            1nat
        } else {
            0nat
        })
    }
}

/// Whether descriptor `fd` is among the taking-part descriptors of the first `i` of `fds`.
pub open spec fn seen(fds: Seq<usize>, nfds: usize, i: int, fd: int) -> bool
    decreases i,
{
    if i <= 0 {
        false
    } else {
        seen(fds, nfds, i - 1, fd) || (live(fds[i - 1], nfds) && fds[i - 1] == fd)
    }
}

/// What a pass leaves at a position of the descriptor list: the mark 1024 for a ready
/// descriptor, else the descriptor.
pub open spec fn after_pass(fd: usize, nfds: usize, table: Seq<Option<bool>>) -> usize {
    if live(fd, nfds) && table[fd as int] == Some(true) {
        1024
    } else {
        fd
    }
}

/// One pass of `pselect6` over the descriptor list `fds` of one kind (read or write), entry
/// `fd` of `table` telling whether descriptor `fd` has an open file and whether it is
/// ready: each taking-part descriptor (see `live`) is set in `set` when ready, and then
/// marked 1024 in the list, and cleared from `set` when not. Returns the number found ready
/// and whether one was not; `EBADF` when one is out of the table or has no open file. A descriptor equal to the length of the
/// table is a fatal error (it reads past the table).
pub fn select_pass(fds: &mut Vec<usize>, set: &mut FdSet, nfds: usize, table: &Vec<Option<bool>>) -> (r: Result<
    (usize, bool),
    Errno,
>)
    requires
        old(set).wf(),
        forall|i: int| 0 <= i < old(fds)@.len() ==> old(fds)@[i] <= 1024,
        forall|i: int|
            0 <= i < old(fds)@.len() && live(#[trigger] old(fds)@[i], nfds) ==> old(fds)@[i] != table@.len(),
    ensures
        final(set).wf(),
        r is Err <==> any_bad(old(fds)@, nfds, table@, old(fds)@.len() as int),
        r is Err ==> r == Err::<(usize, bool), Errno>(Errno::EBADF),
        r matches Ok((n, not_ready)) ==> {
            &&& n == ready_count(old(fds)@, nfds, table@, old(fds)@.len() as int)
            &&& not_ready == any_not_ready(old(fds)@, nfds, table@, old(fds)@.len() as int)
            &&& final(fds)@ == old(fds)@.map_values(|fd: usize| after_pass(fd, nfds, table@))
            &&& forall|fd: int|
                #[trigger] final(set).holds(fd) == (if seen(old(fds)@, nfds, old(fds)@.len() as int, fd) {
                    table@[fd] == Some(true)
                } else {
                    old(set).holds(fd)
                })
        },
{
    let ghost f0 = fds@;
    let ghost s0 = *set;
    let n = fds.len();
    let mut count: usize = 0;
    let mut not_ready = false;
    let mut i: usize = 0;
    while i < n
        invariant
            n == f0.len(),
            i <= n,
            f0 == old(fds)@,
            s0 == *old(set),
            forall|j: int| 0 <= j < n ==> f0[j] <= 1024,
            forall|j: int| 0 <= j < n && live(#[trigger] f0[j], nfds) ==> f0[j] != table@.len(),
            set.wf(),
            fds@.len() == n,
            forall|j: int| 0 <= j < i ==> #[trigger] fds@[j] == after_pass(f0[j], nfds, table@),
            forall|j: int| i <= j < n ==> #[trigger] fds@[j] == f0[j],
            !any_bad(f0, nfds, table@, i as int),
            count == ready_count(f0, nfds, table@, i as int),
            count <= i,
            not_ready == any_not_ready(f0, nfds, table@, i as int),
            forall|fd: int|
                #[trigger] set.holds(fd) == (if seen(f0, nfds, i as int, fd) {
                    table@[fd] == Some(true)
                } else {
                    s0.holds(fd)
                }),
        decreases n - i,
    {
        let fd = fds[i];
        if fd >= nfds || fd == 1024 {
            proof {
                assert(!live(f0[i as int], nfds));
                assert forall|g: int| #[trigger] set.holds(g) == (if seen(f0, nfds, i + 1, g) {
                    table@[g] == Some(true)
                } else {
                    s0.holds(g)
                }) by {
                    assert(seen(f0, nfds, i + 1, g) == seen(f0, nfds, i as int, g));
                }
            }
            i = i + 1;
            continue;
        }
        if fd >= table.len() {
            proof {
                assert(any_bad(f0, nfds, table@, i + 1));
                lemma_bad_stays(f0, nfds, table@, i + 1, n as int);
            }
            return Err(Errno::EBADF);
        }
        match table[fd] {
            None => {
                proof {
                    assert(any_bad(f0, nfds, table@, i + 1));
                    lemma_bad_stays(f0, nfds, table@, i + 1, n as int);
                }
                return Err(Errno::EBADF);
            },
            Some(ready) => {
                let ghost st = *set;
                if ready {
                    count = count + 1;
                    set.set_fd(fd);
                    fds.set(i, 1024);
                } else {
                    set.clear_fd(fd);
                    not_ready = true;
                }
                proof {
                    assert forall|g: int| #[trigger] set.holds(g) == (if seen(f0, nfds, i + 1, g) {
                        table@[g] == Some(true)
                    } else {
                        s0.holds(g)
                    }) by {
                        assert(st.holds(g) == (if seen(f0, nfds, i as int, g) {
                            table@[g] == Some(true)
                        } else {
                            s0.holds(g)
                        }));
                    }
                }
            },
        }
        i = i + 1;
    }
    proof {
        assert(fds@ =~= f0.map_values(|fd: usize| after_pass(fd, nfds, table@)));
    }
    Ok((count, not_ready))
}

/// What `pselect6` does after a round of passes over its read and write descriptors.
#[derive(Copy, Clone, PartialEq, Eq, Debug, Structural)]
pub enum SelectStep {
    /// Give the processor away and make another round.
    Wait,
    /// Return; with `write_back`, the read and write sets are first copied back to the
    /// caller (a set whose descriptors were all ready was copied back in its pass already).
    Finish { write_back: bool },
}

/// The step of `pselect6` after a round in which a read descriptor was not ready
/// (`read_waiting`) or a write descriptor was not (`write_waiting`), where
/// `time_left_is_zero` tells whether the current time minus the deadline is zero: while a
/// descriptor is not ready and that difference is zero, wait; when it is not, copy the sets
/// back and return; when every descriptor was ready, return.
pub fn select_step(read_waiting: bool, write_waiting: bool, time_left_is_zero: bool) -> (r: SelectStep)
    ensures
        r == (if read_waiting || write_waiting {
            if time_left_is_zero {
                SelectStep::Wait
            } else {
                SelectStep::Finish { write_back: true }
            }
        } else {
            SelectStep::Finish { write_back: false }
        }),
{
    if read_waiting || write_waiting {
        if time_left_is_zero {
            SelectStep::Wait
        } else {
            SelectStep::Finish { write_back: true }
        }
    } else {
        SelectStep::Finish { write_back: false }
    }
}

/// What `pselect6` returns: the number of ready read, write and exception descriptors
/// counted together.
pub fn select_count(read_ready: isize, write_ready: isize, except_ready: isize) -> (r: isize)
    requires
        isize::MIN <= read_ready + write_ready + except_ready <= isize::MAX,
    ensures
        r == read_ready + write_ready + except_ready,
{
    let total: i128 = read_ready as i128 + write_ready as i128 + except_ready as i128;
    total as isize
}

/// Once a bad descriptor is met, the list has one.
proof fn lemma_bad_stays(fds: Seq<usize>, nfds: usize, table: Seq<Option<bool>>, i: int, n: int)
    requires
        any_bad(fds, nfds, table, i),
        i <= n,
    ensures
        any_bad(fds, nfds, table, n),
    decreases n - i,
{
    if i < n {
        lemma_bad_stays(fds, nfds, table, i, n - 1);
    }
}


/// A pass finds no more descriptors ready than its list holds, and a descriptor that it
/// finds not ready is one of the list.
pub proof fn law_ready_count_bounded(fds: Seq<usize>, nfds: usize, table: Seq<Option<bool>>, i: int)
    requires
        0 <= i <= fds.len(),
    ensures
        ready_count(fds, nfds, table, i) <= i,
        any_not_ready(fds, nfds, table, i) ==> exists|j: int| 0 <= j < i && live(fds[j], nfds) && table[fds[j] as int]
            == Some(false),
    decreases i,
{
    if i > 0 {
        law_ready_count_bounded(fds, nfds, table, i - 1);
        if any_not_ready(fds, nfds, table, i - 1) {
            let j = choose|j: int| 0 <= j < i - 1 && live(fds[j], nfds) && table[fds[j] as int] == Some(false);
            assert(0 <= j < i && live(fds[j], nfds) && table[fds[j] as int] == Some(false));
        } else if any_not_ready(fds, nfds, table, i) {
            assert(live(fds[i - 1], nfds) && table[fds[i - 1] as int] == Some(false));
        }
    }
}

/// `getcwd(buf, size)` for a task whose working directory is `cwd`, `userbuf` being the
/// user buffer of `size` bytes at `buf`: `EFAULT` for a null buffer, `EINVAL` for a size of
/// 0, `ERANGE` when the directory and its ending zero byte do not fit in `size` bytes;
/// else they are written at the start of the buffer, and the answer is `buf`.
pub fn sys_getcwd(buf: u64, size: usize, cwd: &[u8], userbuf: &mut UserBuffer) -> (r: Result<isize, Errno>)
    requires
        buf != 0 && size != 0 ==> old(userbuf).bytes().len() == size,
    ensures
        buf == 0 ==> r == Err::<isize, Errno>(Errno::EFAULT) && *final(userbuf) == *old(userbuf),
        buf != 0 && size == 0 ==> r == Err::<isize, Errno>(Errno::EINVAL) && *final(userbuf) == *old(userbuf),
        buf != 0 && size != 0 && cwd@.len() + 1 > size ==> r == Err::<isize, Errno>(Errno::ERANGE) && *final(userbuf)
            == *old(userbuf),
        buf != 0 && size != 0 && cwd@.len() + 1 <= size ==> {
            &&& r == Ok::<isize, Errno>(buf as isize)
            &&& final(userbuf).piece_lens() == old(userbuf).piece_lens()
            &&& final(userbuf).bytes() == cwd@ + seq![0u8] + old(userbuf).bytes().skip(cwd@.len() + 1int)
        },
{
    if buf == 0 {
        return Err(Errno::EFAULT);
    }
    if size == 0 {
        return Err(Errno::EINVAL);
    }
    if cwd.len() >= size {
        return Err(Errno::ERANGE);
    }
    let ghost b0 = userbuf.bytes();
    userbuf.write(cwd);
    let zero: [u8; 1] = [0u8];
    userbuf.write_at(cwd.len(), &zero);
    proof {
        let n = cwd@.len();
        let b1 = cwd@.take(n as int) + b0.skip(n as int);
        assert(cwd@.take(n as int) =~= cwd@);
        assert(b1.take(n as int) =~= cwd@);
        assert(b1.skip(n + 1int) =~= b0.skip(n + 1int));
        assert(zero@ =~= seq![0u8]);
    }
    Ok(#[verifier::truncate] (buf as isize))
}

} // verus!
