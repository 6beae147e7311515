//! The checks of the system calls that read and write open files (`read`, `pread64`,
//! `write`, `pwrite64`, `readv`, `writev`) and how much they ask of the file; moving the
//! bytes is the file's work.
use vstd::prelude::*;
use crate::address::{canonical_va, VirtAddr, PAGE_SIZE};
use crate::errno::Errno;
use crate::fd_table::FDTable;
use crate::memory_set::MemorySet;
use crate::user_buffer::UserBuffer;

verus! {

/// What the checks read of an open file, which stays as it is while the file is open.
#[derive(Copy, Clone, PartialEq, Eq, Debug, Structural)]
pub struct OpenFile {
    /// The handle by which the caller knows the file.
    pub id: u64,
    pub readable: bool,
    pub writable: bool,
    /// The file is the zero device (named `zero` or `ZERO`).
    pub is_zero: bool,
}

/// What a read does once its checks pass.
#[derive(Copy, Clone, PartialEq, Eq, Debug, Structural)]
pub enum ReadPlan {
    /// Zero the buffer from the zero device; the answer is the number of physical pieces
    /// of the buffer.
    Zero(u64),
    /// Read `len` bytes of file `file` into the buffer.
    Read { file: u64, len: usize },
}

/// The smaller of two lengths.
pub open spec fn min_len(a: usize, b: int) -> int {
    if a < b {
        a as int
    } else {
        b
    }
}

/// The open file of descriptor `fd`: `EBADF` when `fd` is out of the table or its entry is
/// empty.
fn file_of(fd_table: &FDTable<OpenFile>, fd: usize) -> (r: Result<OpenFile, Errno>)
    ensures
        fd >= fd_table@.len() || fd_table@[fd as int] is None ==> r == Err::<OpenFile, Errno>(Errno::EBADF),
        fd < fd_table@.len() && fd_table@[fd as int] is Some ==> r == Ok::<OpenFile, Errno>(
            fd_table@[fd as int]->0,
        ),
{
    if fd >= fd_table.len() {
        return Err(Errno::EBADF);
    }
    match fd_table[fd] {
        Some(f) => Ok(f),
        None => Err(Errno::EBADF),
    }
}

/// `read(fd, buf, len)` on a file of `size` bytes read up to `offset`: `EBADF` for a
/// descriptor that names no file, `EINVAL` for a file that cannot be read; the zero
/// device zeroes the buffer; else the read asks for `len` bytes, but no more than what is
/// left after the offset. It is a fatal error when the offset is past the end of the file.
pub fn sys_read(fd_table: &FDTable<OpenFile>, fd: usize, len: usize, size: usize, offset: usize) -> (r: Result<
    ReadPlan,
    Errno,
>)
    requires
        fd < fd_table@.len() && fd_table@[fd as int] is Some && fd_table@[fd as int]->0.readable
            && !fd_table@[fd as int]->0.is_zero ==> offset <= size,
    ensures
        fd >= fd_table@.len() || fd_table@[fd as int] is None ==> r == Err::<ReadPlan, Errno>(Errno::EBADF),
        fd < fd_table@.len() && fd_table@[fd as int] is Some ==> {
            let f = fd_table@[fd as int]->0;
            r == if !f.readable {
                Err::<ReadPlan, Errno>(Errno::EINVAL)
            } else if f.is_zero {
                Ok::<ReadPlan, Errno>(ReadPlan::Zero(f.id))
            } else {
                Ok::<ReadPlan, Errno>(ReadPlan::Read { file: f.id, len: min_len(len, size - offset) as usize })
            }
        },
{
    let f = match file_of(fd_table, fd) {
        Ok(f) => f,
        Err(e) => {
            return Err(e);
        },
    };
    if !f.readable {
        return Err(Errno::EINVAL);
    }
    if f.is_zero {
        return Ok(ReadPlan::Zero(f.id));
    }
    let left = size - offset;
    Ok(ReadPlan::Read { file: f.id, len: if len < left { len } else { left } })
}

/// `pread64(fd, buf, len, offset)` on a file of `size` bytes: as `read`, but a file that
/// cannot be read gives `EBADF`, and what is left is counted from `offset`. It is a fatal
/// error when `offset` is past the end of the file.
pub fn sys_pread64(fd_table: &FDTable<OpenFile>, fd: usize, len: usize, offset: usize, size: usize) -> (r: Result<
    ReadPlan,
    Errno,
>)
    requires
        fd < fd_table@.len() && fd_table@[fd as int] is Some && fd_table@[fd as int]->0.readable
            && !fd_table@[fd as int]->0.is_zero ==> offset <= size,
    ensures
        fd >= fd_table@.len() || fd_table@[fd as int] is None ==> r == Err::<ReadPlan, Errno>(Errno::EBADF),
        fd < fd_table@.len() && fd_table@[fd as int] is Some ==> {
            let f = fd_table@[fd as int]->0;
            r == if !f.readable {
                Err::<ReadPlan, Errno>(Errno::EBADF)
            } else if f.is_zero {
                Ok::<ReadPlan, Errno>(ReadPlan::Zero(f.id))
            } else {
                Ok::<ReadPlan, Errno>(ReadPlan::Read { file: f.id, len: min_len(len, size - offset) as usize })
            }
        },
{
    let f = match file_of(fd_table, fd) {
        Ok(f) => f,
        Err(e) => {
            return Err(e);
        },
    };
    if !f.readable {
        return Err(Errno::EBADF);
    }
    if f.is_zero {
        return Ok(ReadPlan::Zero(f.id));
    }
    let left = size - offset;
    Ok(ReadPlan::Read { file: f.id, len: if len < left { len } else { left } })
}

/// The checks of a write of `len` bytes at `buf`, in this order: `EBADF` for a descriptor
/// out of the table, `EFAULT` when the bytes are not in one region of the address space
/// (see `check_va_range`), `EBADF` for an empty entry, `EINVAL` for a file that cannot be
/// written; else the file to write to.
pub open spec fn write_checked(fd_table: Seq<Option<OpenFile>>, ms: MemorySet, fd: usize, buf: u64, len: usize) -> Result<
    u64,
    Errno,
> {
    if fd >= fd_table.len() {
        Err(Errno::EBADF)
    } else if !ms.va_range_valid(canonical_va(buf), len) {
        Err(Errno::EFAULT)
    } else if fd_table[fd as int] is None {
        Err(Errno::EBADF)
    } else if !fd_table[fd as int]->0.writable {
        Err(Errno::EINVAL)
    } else {
        Ok(fd_table[fd as int]->0.id)
    }
}

/// The addresses of a user buffer, and its end, fit in 64 bits.
pub open spec fn buffer_fits(buf: u64, len: usize) -> bool {
    &&& canonical_va(buf) + len <= u64::MAX
    &&& canonical_va((canonical_va(buf) + len) as u64) + PAGE_SIZE <= u64::MAX
}

/// The checks of [`write_checked`].
fn write_target(fd_table: &FDTable<OpenFile>, ms: &MemorySet, fd: usize, buf: u64, len: usize) -> (r: Result<u64, Errno>)
    requires
        buffer_fits(buf, len),
    ensures
        r == write_checked(fd_table@, *ms, fd, buf, len),
{
    if fd >= fd_table.len() {
        return Err(Errno::EBADF);
    }
    if !ms.check_va_range(VirtAddr::from_u64(buf), len) {
        return Err(Errno::EFAULT);
    }
    match fd_table[fd] {
        None => Err(Errno::EBADF),
        Some(f) => {
            if !f.writable {
                Err(Errno::EINVAL)
            } else {
                Ok(f.id)
            }
        },
    }
}

/// `write(fd, buf, len)` in the address space `ms`: the checks of [`write_checked`]; the
/// file to write the buffer to.
pub fn sys_write(fd_table: &FDTable<OpenFile>, ms: &MemorySet, fd: usize, buf: u64, len: usize) -> (r: Result<u64, Errno>)
    requires
        buffer_fits(buf, len),
    ensures
        r == write_checked(fd_table@, *ms, fd, buf, len),
{
    write_target(fd_table, ms, fd, buf, len)
}

/// `pwrite64(fd, buf, len, offset)` in the address space `ms`: the checks of `write`; the
/// file to write the buffer to at `offset`.
pub fn sys_pwrite64(fd_table: &FDTable<OpenFile>, ms: &MemorySet, fd: usize, buf: u64, len: usize, offset: usize) -> (r:
    Result<(u64, usize), Errno>)
    requires
        buffer_fits(buf, len),
    ensures
        r == match write_checked(fd_table@, *ms, fd, buf, len) {
            Ok(f) => Ok::<(u64, usize), Errno>((f, offset)),
            Err(e) => Err(e),
        },
{
    match write_target(fd_table, ms, fd, buf, len) {
        Ok(f) => Ok((f, offset)),
        Err(e) => Err(e),
    }
}

/// The checks of `readv(fd, ..)`: `EBADF` for a descriptor that names no file, `EINVAL`
/// for a file that cannot be read; else the file to read into each buffer in turn.
pub fn sys_readv(fd_table: &FDTable<OpenFile>, fd: usize) -> (r: Result<u64, Errno>)
    ensures
        fd >= fd_table@.len() || fd_table@[fd as int] is None ==> r == Err::<u64, Errno>(Errno::EBADF),
        fd < fd_table@.len() && fd_table@[fd as int] is Some ==> r == if fd_table@[fd as int]->0.readable {
            Ok::<u64, Errno>(fd_table@[fd as int]->0.id)
        } else {
            Err::<u64, Errno>(Errno::EINVAL)
        },
{
    let f = match file_of(fd_table, fd) {
        Ok(f) => f,
        Err(e) => {
            return Err(e);
        },
    };
    if !f.readable {
        return Err(Errno::EINVAL);
    }
    Ok(f.id)
}

/// How much `readv` asks of the file for a buffer of `iov_len` bytes, after `total` bytes
/// were read into the buffers before, from a file of `size` bytes whose offset was `offset`
/// when the call began: no more than what is left after both.
pub fn readv_len(iov_len: usize, size: usize, offset: usize, total: usize) -> (r: usize)
    requires
        offset + total <= size,
    ensures
        r == min_len(iov_len, size - offset - total),
{
    let left = size - offset - total;
    if iov_len < left {
        iov_len
    } else {
        left
    }
}

/// The checks of `writev(fd, ..)`: `EBADF` for a descriptor that names no file, `EINVAL`
/// for a file that cannot be written; else the file to write each buffer to in turn
/// (buffers of no bytes are passed over).
pub fn sys_writev(fd_table: &FDTable<OpenFile>, fd: usize) -> (r: Result<u64, Errno>)
    ensures
        fd >= fd_table@.len() || fd_table@[fd as int] is None ==> r == Err::<u64, Errno>(Errno::EBADF),
        fd < fd_table@.len() && fd_table@[fd as int] is Some ==> r == if fd_table@[fd as int]->0.writable {
            Ok::<u64, Errno>(fd_table@[fd as int]->0.id)
        } else {
            Err::<u64, Errno>(Errno::EINVAL)
        },
{
    let f = match file_of(fd_table, fd) {
        Ok(f) => f,
        Err(e) => {
            return Err(e);
        },
    };
    if !f.writable {
        return Err(Errno::EINVAL);
    }
    Ok(f.id)
}

/// `getrandom(buf, buf_size)`: the buffer is left as it is, and the answer is its size.
pub fn sys_getrandom(buf_size: usize) -> (r: isize)
    requires
        buf_size <= isize::MAX,
    ensures
        r == buf_size,
{
    buf_size as isize
}

/// `recvfrom(.., buf, ..)`, `userbuf` being the user buffer of one byte at `buf`: every
/// receive gets the single byte `x`. Answers 1.
pub fn sys_recvfrom(userbuf: &mut UserBuffer) -> (r: isize)
    requires
        old(userbuf).bytes().len() <= usize::MAX,
    ensures
        r == 1,
        final(userbuf).piece_lens() == old(userbuf).piece_lens(),
        final(userbuf).bytes() == crate::user_buffer::written(old(userbuf).bytes(), seq![120u8]),
{
    let x: [u8; 1] = [120u8];
    proof {
        assert(x@ =~= seq![120u8]);
    }
    userbuf.write(&x);
    1
}

} // verus!
