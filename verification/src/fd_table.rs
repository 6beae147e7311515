//! The file descriptor table of a process, and the system calls that only change it.
//! An entry holds a handle on an open file (any copyable value that names it).
use vstd::prelude::*;
use crate::errno::Errno;

verus! {

/// The file descriptor table: entry `fd` holds the open file of descriptor `fd`, or `None`.
pub type FDTable<F> = Vec<Option<F>>;

/// Whether descriptor `i` is the lowest free one of `t`.
pub open spec fn lowest_free<F>(t: Seq<Option<F>>, i: int) -> bool {
    0 <= i < t.len() && t[i] is None && forall|j: int| 0 <= j < i ==> t[j] is Some
}

/// Whether `t` has a free descriptor.
pub open spec fn has_free<F>(t: Seq<Option<F>>) -> bool {
    exists|i: int| 0 <= i < t.len() && t[i] is None
}

/// The descriptor that [`alloc_fd`] picks in `t`: the lowest free one; else the next one
/// when it is below `fd_limit`; else `fd_limit`.
pub open spec fn fd_picked<F>(t: Seq<Option<F>>, fd_limit: usize) -> int {
    if has_free(t) {
        choose|i: int| lowest_free(t, i)
    } else if t.len() >= fd_limit {
        fd_limit as int
    } else {
        t.len() as int
    }
}

/// The table after [`alloc_fd`]: one free entry more at its end when it had none free and
/// was shorter than `fd_limit`.
pub open spec fn table_after_alloc<F>(t: Seq<Option<F>>, fd_limit: usize) -> Seq<Option<F>> {
    if !has_free(t) && t.len() < fd_limit {
        t.push(None)
    } else {
        t
    }
}

/// The descriptor table of a child that does not share its parent's (no `CLONE_FILES`): a
/// table of its own with a handle on the same open file in every slot the parent has open.
pub fn copy_fd_table<F: Copy>(table: &FDTable<F>) -> (r: FDTable<F>)
    ensures
        r@ == table@,
{
    let mut copy: FDTable<F> = Vec::new();
    let mut i: usize = 0;
    while i < table.len()
        invariant
            i <= table@.len(),
            copy@ == table@.take(i as int),
        decreases table@.len() - i,
    {
        match table[i] {
            Some(file) => copy.push(Some(file)),
            None => copy.push(None),
        }
        proof {
            assert(table@.take(i + 1) =~= table@.take(i as int).push(table@[i as int]));
        }
        i = i + 1;
    }
    proof {
        assert(table@.take(table@.len() as int) =~= table@);
    }
    copy
}

/// Finds the lowest free descriptor; when there is none and the table is shorter than
/// `fd_limit`, adds a free entry at its end and returns it; else returns `fd_limit`.
pub fn alloc_fd<F: Copy>(fd_table: &mut FDTable<F>, fd_limit: usize) -> (r: usize)
    ensures
        r == fd_picked(old(fd_table)@, fd_limit),
        final(fd_table)@ == table_after_alloc(old(fd_table)@, fd_limit),
        r < fd_limit ==> r < final(fd_table)@.len() && final(fd_table)@[r as int] is None,
        (exists|i: int| 0 <= i < old(fd_table)@.len() && old(fd_table)@[i] is None) ==> {
            &&& final(fd_table)@ == old(fd_table)@
            &&& r < old(fd_table)@.len()
            &&& old(fd_table)@[r as int] is None
            &&& forall|j: int| 0 <= j < r ==> old(fd_table)@[j] is Some
        },
        (forall|i: int| 0 <= i < old(fd_table)@.len() ==> old(fd_table)@[i] is Some) ==> {
            if old(fd_table)@.len() >= fd_limit {
                &&& r == fd_limit
                &&& final(fd_table)@ == old(fd_table)@
            } else {
                &&& r == old(fd_table)@.len()
                &&& final(fd_table)@ == old(fd_table)@.push(None)
            }
        },
{
    let mut fd: usize = 0;
    while fd < fd_table.len()
        invariant
            fd <= fd_table@.len(),
            fd_table@ == old(fd_table)@,
            forall|j: int| 0 <= j < fd ==> fd_table@[j] is Some,
        decreases fd_table@.len() - fd,
    {
        if fd_table[fd].is_none() {
            proof {
                assert(lowest_free(fd_table@, fd as int));
                let c = choose|i: int| lowest_free(fd_table@, i);
                assert(c == fd) by {
                    if c < fd {
                        assert(fd_table@[c] is Some);
                    } else if c > fd {
                        assert(fd_table@[fd as int] is Some);
                    }
                }
            }
            return fd;
        }
        fd = fd + 1;
    }
    if fd_table.len() >= fd_limit {
        return fd_limit;
    }
    fd_table.push(None);
    fd_table.len() - 1
}

/// `close(fd)`: empties entry `fd`; `EBADF` when it is out of the table or already empty.
pub fn sys_close<F: Copy>(fd_table: &mut FDTable<F>, fd: usize) -> (r: Result<isize, Errno>)
    ensures
        (fd >= old(fd_table)@.len() || old(fd_table)@[fd as int] is None) ==> r == Err::<isize, Errno>(
            Errno::EBADF,
        ) && final(fd_table)@ == old(fd_table)@,
        (fd < old(fd_table)@.len() && old(fd_table)@[fd as int] is Some) ==> r == Ok::<isize, Errno>(0)
            && final(fd_table)@ == old(fd_table)@.update(fd as int, None),
{
    if fd >= fd_table.len() {
        return Err(Errno::EBADF);
    }
    if fd_table[fd].is_none() {
        return Err(Errno::EBADF);
    }
    fd_table.set(fd, None);
    Ok(0)
}

/// `dup(old_fd)`: copies entry `old_fd` to the descriptor that [`alloc_fd`] picks and
/// returns it; `EBADF` when `old_fd` is out of the table or empty, `EMFILE` when the
/// descriptor picked is not below `fd_limit`.
pub fn sys_dup<F: Copy>(fd_table: &mut FDTable<F>, fd_limit: usize, old_fd: usize) -> (r: Result<isize, Errno>)
    requires
        old(fd_table)@.len() < isize::MAX,
        fd_limit < isize::MAX,
    ensures
        (old_fd >= old(fd_table)@.len() || old(fd_table)@[old_fd as int] is None) ==> r == Err::<
            isize,
            Errno,
        >(Errno::EBADF) && final(fd_table)@ == old(fd_table)@,
        (old_fd < old(fd_table)@.len() && old(fd_table)@[old_fd as int] is Some) ==> {
            let n = fd_picked(old(fd_table)@, fd_limit);
            let t = table_after_alloc(old(fd_table)@, fd_limit);
            if n >= fd_limit {
                r == Err::<isize, Errno>(Errno::EMFILE) && final(fd_table)@ == t
            } else {
                r == Ok::<isize, Errno>(n as isize) && final(fd_table)@ == t.update(n, old(fd_table)@[old_fd as int])
            }
        },
{
    if old_fd >= fd_table.len() {
        return Err(Errno::EBADF);
    }
    if fd_table[old_fd].is_none() {
        return Err(Errno::EBADF);
    }
    let new_fd = alloc_fd(fd_table, fd_limit);
    if new_fd >= fd_limit {
        return Err(Errno::EMFILE);
    }
    let file = fd_table[old_fd];
    fd_table.set(new_fd, file);
    Ok(new_fd as isize)
}

/// The outcome of putting two new files `a` and `b` in a table `t0`: `a` at the descriptor
/// that [`alloc_fd`] picks, then `b` at the next one picked, the result being the two
/// descriptors; `EMFILE` when a descriptor picked is not below `fd_limit` (`a`, once put,
/// stays). `t` is the table after.
pub open spec fn pair_installed<F>(
    t0: Seq<Option<F>>,
    fd_limit: usize,
    a: F,
    b: F,
    r: Result<(usize, usize), Errno>,
    t: Seq<Option<F>>,
) -> bool {
    let fa = fd_picked(t0, fd_limit);
    let t1 = table_after_alloc(t0, fd_limit).update(fa, Some(a));
    let fb = fd_picked(t1, fd_limit);
    if fa >= fd_limit {
        r == Err::<(usize, usize), Errno>(Errno::EMFILE) && t == table_after_alloc(t0, fd_limit)
    } else if fb >= fd_limit {
        r == Err::<(usize, usize), Errno>(Errno::EMFILE) && t == table_after_alloc(t1, fd_limit)
    } else {
        r == Ok::<(usize, usize), Errno>((fa as usize, fb as usize)) && t == table_after_alloc(t1, fd_limit).update(
            fb,
            Some(b),
        )
    }
}

/// `pipe2`: puts the read end `read` of a new pipe and then its write end `write` in the
/// table (see [`pair_installed`]), and returns both descriptors for the caller to write
/// back.
pub fn sys_pipe2<F: Copy>(fd_table: &mut FDTable<F>, fd_limit: usize, read: F, write: F) -> (r: Result<
    (usize, usize),
    Errno,
>)
    ensures
        pair_installed(old(fd_table)@, fd_limit, read, write, r, final(fd_table)@),
{
    let read_fd = alloc_fd(fd_table, fd_limit);
    if read_fd >= fd_limit {
        return Err(Errno::EMFILE);
    }
    fd_table.set(read_fd, Some(read));
    let write_fd = alloc_fd(fd_table, fd_limit);
    if write_fd >= fd_limit {
        return Err(Errno::EMFILE);
    }
    fd_table.set(write_fd, Some(write));
    Ok((read_fd, write_fd))
}

/// `socketpair`: puts the two ends `sv0` and `sv1` of a new pair of connected sockets in
/// the table as `pipe2` does (see [`pair_installed`]), and returns both descriptors.
pub fn sys_socketpair<F: Copy>(fd_table: &mut FDTable<F>, fd_limit: usize, sv0: F, sv1: F) -> (r: Result<
    (usize, usize),
    Errno,
>)
    ensures
        pair_installed(old(fd_table)@, fd_limit, sv0, sv1, r, final(fd_table)@),
{
    sys_pipe2(fd_table, fd_limit, sv0, sv1)
}

/// Terminal `ioctl` requests: get the terminal attributes.
pub const TCGETS: usize = 0x5401;
/// Set the terminal attributes.
pub const TCSETS: usize = 0x5402;
/// Get the foreground process group.
pub const TIOCGPGRP: usize = 0x540f;
/// Set the foreground process group.
pub const TIOCSPGRP: usize = 0x5410;
/// Get the window size.
pub const TIOCGWINSZ: usize = 0x5413;
/// Read the real-time clock.
pub const RTC_RD_TIME: usize = 0x8024_7009;

/// `ioctl(fd, request)`: `EBADF` when `fd` is out of the table; the terminal and clock
/// requests are accepted, the others give `EINVAL`. The result says whether a zero byte is
/// written at the argument (for the process group and window size requests).
pub fn sys_ioctl<F>(fd_table: &FDTable<F>, fd: usize, request: usize) -> (r: Result<bool, Errno>)
    ensures
        fd >= fd_table@.len() ==> r == Err::<bool, Errno>(Errno::EBADF),
        fd < fd_table@.len() ==> r == if request == TIOCGPGRP || request == TIOCGWINSZ {
            Ok::<bool, Errno>(true)
        } else if request == TCGETS || request == TCSETS || request == TIOCSPGRP || request == RTC_RD_TIME {
            Ok::<bool, Errno>(false)
        } else {
            Err::<bool, Errno>(Errno::EINVAL)
        },
{
    if fd >= fd_table.len() {
        return Err(Errno::EBADF);
    }
    if request == TIOCGPGRP || request == TIOCGWINSZ {
        Ok(true)
    } else if request == TCGETS || request == TCSETS || request == TIOCSPGRP || request == RTC_RD_TIME {
        Ok(false)
    } else {
        Err(Errno::EINVAL)
    }
}

/// `dup3(old_fd, new_fd)`: copies entry `old_fd` to entry `new_fd`, first growing the
/// table with empty entries up to `new_fd`; `EBADF` when `old_fd` is out of the table or
/// empty.
pub fn sys_dup3<F: Copy>(fd_table: &mut FDTable<F>, old_fd: usize, new_fd: usize) -> (r: Result<isize, Errno>)
    requires
        new_fd < isize::MAX,
    ensures
        (old_fd >= old(fd_table)@.len() || old(fd_table)@[old_fd as int] is None) ==> r == Err::<
            isize,
            Errno,
        >(Errno::EBADF) && final(fd_table)@ == old(fd_table)@,
        (old_fd < old(fd_table)@.len() && old(fd_table)@[old_fd as int] is Some) ==> {
            &&& r == Ok::<isize, Errno>(new_fd as isize)
            &&& final(fd_table)@.len() == if new_fd < old(fd_table)@.len() {
                old(fd_table)@.len()
            } else {
                (new_fd + 1) as nat
            }
            &&& final(fd_table)@[new_fd as int] == old(fd_table)@[old_fd as int]
            &&& forall|j: int| 0 <= j < old(fd_table)@.len() && j != new_fd ==> final(fd_table)@[j] == old(
                fd_table,
            )@[j]
            &&& forall|j: int| old(fd_table)@.len() <= j < final(fd_table)@.len() && j != new_fd
                ==> final(fd_table)@[j] is None
        },
{
    if old_fd >= fd_table.len() || fd_table[old_fd].is_none() {
        return Err(Errno::EBADF);
    }
    if new_fd >= fd_table.len() {
        let mut i = fd_table.len();
        while i < new_fd + 1
            invariant
                old(fd_table)@.len() <= i <= new_fd + 1,
                new_fd < isize::MAX,
                fd_table@.len() == i,
                forall|j: int| 0 <= j < old(fd_table)@.len() ==> fd_table@[j] == old(fd_table)@[j],
                forall|j: int| old(fd_table)@.len() <= j < i ==> fd_table@[j] is None,
            decreases new_fd + 1 - i,
        {
            fd_table.push(None);
            i = i + 1;
        }
    }
    let file = fd_table[old_fd];
    fd_table.set(new_fd, file);
    Ok(new_fd as isize)
}


/// `fcntl` command: get the descriptor flags.
pub const F_GETFD: usize = 1;
/// `fcntl` command: set the descriptor flags.
pub const F_SETFD: usize = 2;
/// `fcntl` command: get the status flags.
pub const F_GETFL: usize = 3;
/// `fcntl` command: set the status flags.
pub const F_SETFL: usize = 4;
/// `fcntl` command: duplicate to the lowest free descriptor from a number on, close on exec.
pub const F_DUPFD_CLOEXEC: usize = 1030;

/// What `fcntl` asks of an open file besides its result.
#[derive(Copy, Clone, PartialEq, Eq, Debug, Structural)]
pub enum FcntlAction<F> {
    /// Nothing.
    Nothing,
    /// Set the status flags of the file to `flags`.
    SetStatusFlags { file: F, flags: u32 },
    /// The result of the call is whether the file is closed on exec.
    ReportCloexec(F),
    /// Mark the file to be closed on exec.
    SetCloexec(F),
}

/// Whether entry `i` of the table is free, an index past its end counting as free.
pub open spec fn free_at<F>(t: Seq<Option<F>>, i: int) -> bool {
    i >= t.len() || t[i] is None
}

/// The descriptor that `F_DUPFD_CLOEXEC` from `start` picks: the lowest free one from
/// `start` on.
pub open spec fn dup_target<F>(t: Seq<Option<F>>, start: int) -> int {
    choose|n: int| start <= n && free_at(t, n) && forall|j: int| start <= j < n ==> !free_at(t, j)
}

/// Whether `F_DUPFD_CLOEXEC` from `start` finds room below `fd_limit`: a free entry of the
/// table from `start` on, or room to grow the table to an entry from `start` on.
pub open spec fn dup_room<F>(t: Seq<Option<F>>, start: int, fd_limit: int) -> bool {
    (exists|i: int| start <= i < t.len() && t[i] is None) || (if t.len() > start {
        t.len() as int
    } else {
        start
    }) < fd_limit
}

/// The lowest free entry from `start` on, an index past the end counting as free.
fn find_free_from<F: Copy>(fd_table: &FDTable<F>, start: usize) -> (r: usize)
    ensures
        r >= start,
        free_at(fd_table@, r as int),
        forall|j: int| start <= j < r ==> !free_at(fd_table@, j),
        r == (if start >= fd_table@.len() { start as int } else { r as int }),
        r <= (if start >= fd_table@.len() { start as int } else { fd_table@.len() as int }),
{
    let mut i = start;
    while i < fd_table.len()
        invariant
            start <= i,
            i <= (if start >= fd_table@.len() { start as int } else { fd_table@.len() as int }),
            forall|j: int| start <= j < i ==> !free_at(fd_table@, j),
        decreases fd_table@.len() - i,
    {
        if fd_table[i].is_none() {
            return i;
        }
        i = i + 1;
    }
    i
}

/// `fcntl(fd, cmd, arg)` on the table: `F_SETFL` sets the status flags of the file to
/// `arg`; `F_GETFD` reports whether the file is closed on exec; `F_SETFD` marks it so when
/// `arg` is not 0; `F_GETFL` answers 4000; `F_DUPFD_CLOEXEC` copies entry `fd` to the lowest
/// free descriptor from `arg` on (growing the table with empty entries up to it), marks it
/// closed on exec and returns it; `EBADF` when entry `fd` is empty. The picked entry holds
/// `placeholder` while it is allocated, before entry `fd` is read: it keeps it on `EBADF`,
/// and it is what is copied when the picked entry is `fd` itself. `EINVAL` for another
/// command. It is a fatal error (a read past the table) when `fd` is out of it, and when
/// `F_DUPFD_CLOEXEC` finds no room below `fd_limit` (it fails or never ends).
pub fn sys_fcntl<F: Copy>(
    fd_table: &mut FDTable<F>,
    fd_limit: usize,
    fd: usize,
    cmd: usize,
    arg: usize,
    placeholder: F,
) -> (r: Result<(isize, FcntlAction<F>), Errno>)
    requires
        (cmd == F_SETFL || cmd == F_GETFD || cmd == F_SETFD || cmd == F_DUPFD_CLOEXEC) ==> fd < old(
            fd_table,
        )@.len(),
        cmd == F_DUPFD_CLOEXEC ==> dup_room(old(fd_table)@, arg as int, fd_limit as int),
        fd_limit < isize::MAX,
    ensures
        cmd != F_DUPFD_CLOEXEC ==> final(fd_table)@ == old(fd_table)@,
        cmd == F_SETFL ==> r == match old(fd_table)@[fd as int] {
            Some(f) => Ok((0isize, FcntlAction::SetStatusFlags { file: f, flags: arg as u32 })),
            None => Err(Errno::EBADF),
        },
        cmd == F_GETFD ==> r == match old(fd_table)@[fd as int] {
            Some(f) => Ok((0isize, FcntlAction::ReportCloexec(f))),
            None => Err(Errno::EBADF),
        },
        cmd == F_SETFD ==> r == match old(fd_table)@[fd as int] {
            Some(f) => Ok((0isize, if arg != 0 { FcntlAction::SetCloexec(f) } else { FcntlAction::Nothing })),
            None => Err(Errno::EBADF),
        },
        cmd == F_GETFL ==> r == Ok::<(isize, FcntlAction<F>), Errno>((4000isize, FcntlAction::Nothing)),
        cmd == F_DUPFD_CLOEXEC ==> {
            let t = old(fd_table)@;
            let n = dup_target(t, arg as int);
            let src = if fd == n {
                Some(placeholder)
            } else {
                t[fd as int]
            };
            &&& final(fd_table)@.len() == (if n < t.len() { t.len() as int } else { n + 1 })
            &&& forall|j: int| 0 <= j < t.len() && j != n ==> final(fd_table)@[j] == t[j]
            &&& forall|j: int| t.len() <= j < final(fd_table)@.len() && j != n ==> final(fd_table)@[j] is None
            &&& r == match src {
                Some(f) => Ok((n as isize, FcntlAction::SetCloexec(f))),
                None => Err(Errno::EBADF),
            }
            &&& final(fd_table)@[n] == match src {
                Some(f) => Some(f),
                None => Some(placeholder),
            }
        },
        !(cmd == F_SETFL || cmd == F_GETFD || cmd == F_SETFD || cmd == F_GETFL || cmd == F_DUPFD_CLOEXEC)
            ==> r == Err::<(isize, FcntlAction<F>), Errno>(Errno::EINVAL),
{
    if cmd == F_SETFL {
        return match fd_table[fd] {
            Some(f) => Ok((0, FcntlAction::SetStatusFlags { file: f, flags: arg as u32 })),
            None => Err(Errno::EBADF),
        };
    }
    if cmd == F_GETFD {
        return match fd_table[fd] {
            Some(f) => Ok((0, FcntlAction::ReportCloexec(f))),
            None => Err(Errno::EBADF),
        };
    }
    if cmd == F_SETFD {
        return match fd_table[fd] {
            Some(f) => Ok((0, if arg != 0 { FcntlAction::SetCloexec(f) } else { FcntlAction::Nothing })),
            None => Err(Errno::EBADF),
        };
    }
    if cmd == F_GETFL {
        return Ok((4000, FcntlAction::Nothing));
    }
    if cmd != F_DUPFD_CLOEXEC {
        return Err(Errno::EINVAL);
    }
    let ghost t = fd_table@;
    let n = find_free_from(fd_table, arg);
    proof {
        assert(n as int == dup_target(t, arg as int)) by {
            let m = dup_target(t, arg as int);
            assert(arg <= n && free_at(t, n as int) && forall|j: int| arg <= j < n ==> !free_at(t, j));
            if m < n {
                assert(!free_at(t, m));
            }
            if n < m {
                assert(!free_at(t, n as int));
            }
        }
        if n >= t.len() {
            assert(!(exists|i: int| arg <= i < t.len() && t[i] is None)) by {
                if exists|i: int| arg <= i < t.len() && t[i] is None {
                    let i = choose|i: int| arg <= i < t.len() && t[i] is None;
                    assert(free_at(t, i));
                    assert(!free_at(t, i));
                }
            }
        }
    }
    let len0 = fd_table.len();
    while fd_table.len() <= n
        invariant
            n >= len0 ==> n < fd_limit,
            fd_limit < isize::MAX,
            fd_table@.len() <= n + 1 || fd_table@.len() == len0,
            len0 == t.len(),
            fd_table@.len() >= len0,
            forall|j: int| 0 <= j < t.len() ==> fd_table@[j] == t[j],
            forall|j: int| t.len() <= j < fd_table@.len() ==> fd_table@[j] is None,
        decreases n + 1 - fd_table@.len(),
    {
        fd_table.push(None);
    }
    let src = if fd == n {
        Some(placeholder)
    } else {
        fd_table[fd]
    };
    match src {
        Some(f) => {
            fd_table.set(n, Some(f));
            Ok((n as isize, FcntlAction::SetCloexec(f)))
        },
        None => {
            fd_table.set(n, Some(placeholder));
            Err(Errno::EBADF)
        },
    }
}


/// `lseek` whence: from the start of the file.
pub const SEEK_SET: usize = 0;
/// `lseek` whence: from the current offset.
pub const SEEK_CUR: usize = 1;
/// `lseek` whence: from the end of the file.
pub const SEEK_END: usize = 2;

/// The offset that `lseek(off, whence)` moves to, from the current offset `current` and the
/// size `size` of the file, or `None` when it is negative.
pub open spec fn seek_target(off: isize, whence: usize, current: usize, size: usize) -> Option<int> {
    let base: int = if whence == SEEK_SET {
        0
    } else if whence == SEEK_CUR {
        current as isize as int
    } else {
        size as isize as int
    };
    if base + off < 0 {
        None
    } else {
        Some(base + off)
    }
}

/// How `lseek` targets relate: from the start, any offset not below 0 is reached as it is
/// and a negative one is refused; from the current offset or from the end, the target is
/// the one from the start at the current offset or the size plus `off`; a target is never
/// negative.
pub proof fn law_seek_targets(off: isize, current: usize, size: usize)
    requires
        current <= isize::MAX,
        size <= isize::MAX,
        isize::MIN <= current + off <= isize::MAX,
        isize::MIN <= size + off <= isize::MAX,
    ensures
        off >= 0 ==> seek_target(off, SEEK_SET, current, size) == Some(off as int),
        off < 0 ==> seek_target(off, SEEK_SET, current, size) is None,
        seek_target(off, SEEK_CUR, current, size) == seek_target((current + off) as isize, SEEK_SET, current, size),
        seek_target(off, SEEK_END, current, size) == seek_target((size + off) as isize, SEEK_SET, current, size),
        forall|w: usize| #[trigger] seek_target(off, w, current, size) matches Some(t) ==> t >= 0,
{
}

/// `lseek(fd, off, whence)`: `EBADF` when `fd` is out of the table, `DISCARD` when its
/// entry is empty; else the file and the offset to seek it to (see `seek_target`, the
/// current offset and the size being the file's), `EINVAL` when that is negative. It is a fatal error on another `whence`, and its sums overflow past the largest offset.
pub fn sys_lseek<F: Copy>(
    fd_table: &FDTable<F>,
    fd: usize,
    off: isize,
    whence: usize,
    current: usize,
    size: usize,
) -> (r: Result<(F, isize), Errno>)
    requires
        whence <= 2,
        isize::MIN <= (if whence == SEEK_SET { 0 } else if whence == SEEK_CUR { current as isize as int } else {
            size as isize as int
        }) + off <= isize::MAX,
    ensures
        fd >= fd_table@.len() ==> r == Err::<(F, isize), Errno>(Errno::EBADF),
        fd < fd_table@.len() && fd_table@[fd as int] is None ==> r == Err::<(F, isize), Errno>(Errno::DISCARD),
        fd < fd_table@.len() && fd_table@[fd as int] is Some ==> r == match seek_target(off, whence, current, size) {
            None => Err(Errno::EINVAL),
            Some(n) => Ok((fd_table@[fd as int]->0, n as isize)),
        },
{
    if fd >= fd_table.len() {
        return Err(Errno::EBADF);
    }
    let file = match fd_table[fd] {
        Some(f) => f,
        None => {
            return Err(Errno::DISCARD);
        },
    };
    let base: isize = if whence == SEEK_SET {
        0
    } else if whence == SEEK_CUR {
        current as isize
    } else {
        size as isize
    };
    let target = base + off;
    if target < 0 {
        return Err(Errno::EINVAL);
    }
    Ok((file, target))
}

} // verus!
