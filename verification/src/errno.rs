//! Error numbers of system calls (see `man 3 errno`), and how a result becomes the value
//! that a system call returns.
use vstd::prelude::*;
use crate::address::VirtAddr;

verus! {

/// The error numbers of the Linux system calls that the kernel reports.
#[derive(Debug, Clone, Copy, PartialEq, Eq, Structural)]
pub enum Errno {
    DISCARD,
    EPERM,
    ENOENT,
    ESRCH,
    EINTR,
    EIO,
    ENXIO,
    E2BIG,
    ENOEXEC,
    EBADF,
    ECHILD,
    EAGAIN,
    ENOMEM,
    EACCES,
    EFAULT,
    ENOTBLK,
    EBUSY,
    EEXIST,
    EXDEV,
    ENODEV,
    ENOTDIR,
    EISDIR,
    EINVAL,
    ENFILE,
    EMFILE,
    ENOTTY,
    ETXTBSY,
    EFBIG,
    ENOSPC,
    ESPIPE,
    EROFS,
    EMLINK,
    EPIPE,
    EDOM,
    ERANGE,
    ETIMEDOUT,
}

impl Errno {
    /// The number of the error: its Linux value, or -1 for `DISCARD`, an error that the
    /// kernel does not classify.
    pub fn code(&self) -> (r: isize)
        ensures
            r == errno_code(*self),
    {
        match self {
            Errno::DISCARD => -1,
            Errno::EPERM => 1,
            Errno::ENOENT => 2,
            Errno::ESRCH => 3,
            Errno::EINTR => 4,
            Errno::EIO => 5,
            Errno::ENXIO => 6,
            Errno::E2BIG => 7,
            Errno::ENOEXEC => 8,
            Errno::EBADF => 9,
            Errno::ECHILD => 10,
            Errno::EAGAIN => 11,
            Errno::ENOMEM => 12,
            Errno::EACCES => 13,
            Errno::EFAULT => 14,
            Errno::ENOTBLK => 15,
            Errno::EBUSY => 16,
            Errno::EEXIST => 17,
            Errno::EXDEV => 18,
            Errno::ENODEV => 19,
            Errno::ENOTDIR => 20,
            Errno::EISDIR => 21,
            Errno::EINVAL => 22,
            Errno::ENFILE => 23,
            Errno::EMFILE => 24,
            Errno::ENOTTY => 25,
            Errno::ETXTBSY => 26,
            Errno::EFBIG => 27,
            Errno::ENOSPC => 28,
            Errno::ESPIPE => 29,
            Errno::EROFS => 30,
            Errno::EMLINK => 31,
            Errno::EPIPE => 32,
            Errno::EDOM => 33,
            Errno::ERANGE => 34,
            Errno::ETIMEDOUT => 110,
        }
    }
}

/// The number of an error.
pub open spec fn errno_code(e: Errno) -> int {
    match e {
        Errno::DISCARD => -1,
        Errno::EPERM => 1,
        Errno::ENOENT => 2,
        Errno::ESRCH => 3,
        Errno::EINTR => 4,
        Errno::EIO => 5,
        Errno::ENXIO => 6,
        Errno::E2BIG => 7,
        Errno::ENOEXEC => 8,
        Errno::EBADF => 9,
        Errno::ECHILD => 10,
        Errno::EAGAIN => 11,
        Errno::ENOMEM => 12,
        Errno::EACCES => 13,
        Errno::EFAULT => 14,
        Errno::ENOTBLK => 15,
        Errno::EBUSY => 16,
        Errno::EEXIST => 17,
        Errno::EXDEV => 18,
        Errno::ENODEV => 19,
        Errno::ENOTDIR => 20,
        Errno::EISDIR => 21,
        Errno::EINVAL => 22,
        Errno::ENFILE => 23,
        Errno::EMFILE => 24,
        Errno::ENOTTY => 25,
        Errno::ETXTBSY => 26,
        Errno::EFBIG => 27,
        Errno::ENOSPC => 28,
        Errno::ESPIPE => 29,
        Errno::EROFS => 30,
        Errno::EMLINK => 31,
        Errno::EPIPE => 32,
        Errno::EDOM => 33,
        Errno::ERANGE => 34,
        Errno::ETIMEDOUT => 110,
    }
}

/// The value that a system call returns for its result: the value itself on success, and
/// the error number made negative on failure (an error number that is already negative is
/// returned as it is).
pub fn syscall_return(ret: Result<isize, Errno>) -> (r: isize)
    ensures
        r == match ret {
            Ok(v) => v as int,
            Err(e) => if errno_code(e) > 0 {
                -errno_code(e)
            } else {
                errno_code(e)
            },
        },
{
    match ret {
        Ok(data) => data,
        Err(err) => {
            let errno = err.code();
            if errno > 0 {
                -errno
            } else {
                errno
            }
        },
    }
}

/// The errors of system calls, each with the value that the call returns for it and what
/// describes it.
pub enum SyscallError {
    ParamInvalid(isize, String),
    ReachFdLimit(isize),
    FdInvalid(isize, usize),
    InvalidVirtAddress(isize, VirtAddr),
    FileCannotWrite(isize, isize, String),
    PathNotExisted(isize, String),
    PathCannotReach(isize, String),
    MmapLengthNotBigEnough(isize),
    OpenInodeFailed(isize, String),
    PidNotFound(isize, isize),
    ReachMountLimit(isize),
    UnmountFailed(isize),
    NoSuchFile(isize),
}

/// The value that a system call returns for an error: its first field.
pub open spec fn syscall_error_code(e: SyscallError) -> isize {
    match e {
        SyscallError::ParamInvalid(c, _) => c,
        SyscallError::ReachFdLimit(c) => c,
        SyscallError::FdInvalid(c, _) => c,
        SyscallError::InvalidVirtAddress(c, _) => c,
        SyscallError::FileCannotWrite(c, _, _) => c,
        SyscallError::PathNotExisted(c, _) => c,
        SyscallError::PathCannotReach(c, _) => c,
        SyscallError::MmapLengthNotBigEnough(c) => c,
        SyscallError::OpenInodeFailed(c, _) => c,
        SyscallError::PidNotFound(c, _) => c,
        SyscallError::ReachMountLimit(c) => c,
        SyscallError::UnmountFailed(c) => c,
        SyscallError::NoSuchFile(c) => c,
    }
}

impl SyscallError {
    /// The value that a system call returns for this error.
    pub fn error_code(&self) -> (r: isize)
        ensures
            r == syscall_error_code(*self),
    {
        match self {
            SyscallError::ParamInvalid(error_code, _) => *error_code,
            SyscallError::ReachFdLimit(error_code) => *error_code,
            SyscallError::FdInvalid(error_code, _) => *error_code,
            SyscallError::InvalidVirtAddress(error_code, _) => *error_code,
            SyscallError::FileCannotWrite(error_code, _, _) => *error_code,
            SyscallError::PathNotExisted(error_code, _) => *error_code,
            SyscallError::PathCannotReach(error_code, _) => *error_code,
            SyscallError::MmapLengthNotBigEnough(error_code) => *error_code,
            SyscallError::OpenInodeFailed(error_code, _) => *error_code,
            SyscallError::PidNotFound(error_code, _) => *error_code,
            SyscallError::ReachMountLimit(error_code) => *error_code,
            SyscallError::UnmountFailed(error_code) => *error_code,
            SyscallError::NoSuchFile(error_code) => *error_code,
        }
    }
}

} // verus!
