//! The numbers of the system calls the kernel serves.
use vstd::prelude::*;

verus! {

/// A system call the kernel serves.
#[allow(non_camel_case_types)]
#[derive(Copy, Clone, PartialEq, Eq, Debug, Structural)]
pub enum SyscallId {
    SYS_GETITIMER,
    SYS_GETCWD,
    SYS_DUP,
    SYS_DUP3,
    SYS_FCNTL,
    SYS_IOCTL,
    SYS_MKDIRAT,
    SYS_UNLINKAT,
    SYS_LINKAT,
    SYS_UMOUNT2,
    SYS_MOUNT,
    SYS_STATFS,
    SYS_FTRUNCATE64,
    SYS_FACCESSAT,
    SYS_CHDIR,
    SYS_OPENAT,
    SYS_CLOSE,
    SYS_PIPE2,
    SYS_GETDENTS64,
    SYS_LSEEK,
    SYS_READ,
    SYS_WRITE,
    SYS_READV,
    SYS_WRITEV,
    SYS_PREAD64,
    SYS_PWRITE64,
    SYS_SENDFILE,
    SYS_PSELECT6,
    SYS_PPOLL,
    SYS_READLINKAT,
    SYS_NEWFSTATAT,
    SYS_FSTAT,
    SYS_SYNC,
    SYS_FSYNC,
    SYS_UTIMENSAT,
    SYS_EXIT,
    SYS_EXIT_GROUP,
    SYS_SET_TID_ADDRESS,
    SYS_FUTEX,
    SYS_SET_ROBUST_LIST,
    SYS_GET_ROBUST_LIST,
    SYS_NANOSLEEP,
    SYS_SETITIMER,
    SYS_CLOCK_GETTIME,
    SYS_SYSLOG,
    SYS_SCHED_YIELD,
    SYS_KILL,
    SYS_TILL,
    SYS_TGKILL,
    SYS_SIGTIMEDWAIT,
    SYS_TIMES,
    SYS_SETPGID,
    SYS_GETPGID,
    SYS_UNAME,
    SYS_GETRUSAGE,
    SYS_UMASK,
    SYS_GETTIMEOFDAY,
    SYS_GETPID,
    SYS_GETPPID,
    SYS_GETUID,
    SYS_GETEUID,
    SYS_GETGID,
    SYS_GETEGID,
    SYS_GETTID,
    SYS_SYSINFO,
    SYS_SHMGET,
    SYS_SHMCTL,
    SYS_SHMAT,
    SYS_SHMDT,
    SYS_BRK,
    SYS_MUNMAP,
    SYS_CLONE,
    SYS_EXECVE,
    SYS_MMAP,
    SYS_MPROTECT,
    SYS_MSYNC,
    SYS_WAIT4,
    SYS_PRLIMIT64,
    SYS_RENAMEAT2,
    SYS_GETRANDOM,
    SYS_MEMBARRIER,
    SYS_SCHED_SETAFFINITY,
    SYS_SCHED_GETAFFINITY,
    SYS_SCHEED_GETSCHEDULER,
    SYS_SCHED_GETPARAM,
    SYS_SCHED_SETSCHEDULER,
    SYS_CLOCK_GETRES,
    SYS_SOCKETPAIR,
    SYS_MADVISE,
    SYS_CLOCK_NANOSLEEP,
    SYS_SIGACTION,
    SYS_SIGPROCMASK,
    SYS_SIGRETURN,
    SYS_SOCKET,
    SYS_BIND,
    SYS_LISTEN,
    SYS_ACCEPT,
    SYS_CONNECT,
    SYS_GETSOCKNAME,
    SYS_SENDTO,
    SYS_RECVFROM,
    SYS_SETSOCKOPT,
    SYS_TIMER_SETTIME,
    SYS_TIMER_GETOVERRUN,
}

/// The number of a system call.
pub open spec fn syscall_number(id: SyscallId) -> usize {
    match id {
        SyscallId::SYS_GETITIMER => 102usize,
        SyscallId::SYS_GETCWD => 17usize,
        SyscallId::SYS_DUP => 23usize,
        SyscallId::SYS_DUP3 => 24usize,
        SyscallId::SYS_FCNTL => 25usize,
        SyscallId::SYS_IOCTL => 29usize,
        SyscallId::SYS_MKDIRAT => 34usize,
        SyscallId::SYS_UNLINKAT => 35usize,
        SyscallId::SYS_LINKAT => 37usize,
        SyscallId::SYS_UMOUNT2 => 39usize,
        SyscallId::SYS_MOUNT => 40usize,
        SyscallId::SYS_STATFS => 43usize,
        SyscallId::SYS_FTRUNCATE64 => 46usize,
        SyscallId::SYS_FACCESSAT => 48usize,
        SyscallId::SYS_CHDIR => 49usize,
        SyscallId::SYS_OPENAT => 56usize,
        SyscallId::SYS_CLOSE => 57usize,
        SyscallId::SYS_PIPE2 => 59usize,
        SyscallId::SYS_GETDENTS64 => 61usize,
        SyscallId::SYS_LSEEK => 62usize,
        SyscallId::SYS_READ => 63usize,
        SyscallId::SYS_WRITE => 64usize,
        SyscallId::SYS_READV => 65usize,
        SyscallId::SYS_WRITEV => 66usize,
        SyscallId::SYS_PREAD64 => 67usize,
        SyscallId::SYS_PWRITE64 => 68usize,
        SyscallId::SYS_SENDFILE => 71usize,
        SyscallId::SYS_PSELECT6 => 72usize,
        SyscallId::SYS_PPOLL => 73usize,
        SyscallId::SYS_READLINKAT => 78usize,
        SyscallId::SYS_NEWFSTATAT => 79usize,
        SyscallId::SYS_FSTAT => 80usize,
        SyscallId::SYS_SYNC => 81usize,
        SyscallId::SYS_FSYNC => 82usize,
        SyscallId::SYS_UTIMENSAT => 88usize,
        SyscallId::SYS_EXIT => 93usize,
        SyscallId::SYS_EXIT_GROUP => 94usize,
        SyscallId::SYS_SET_TID_ADDRESS => 96usize,
        SyscallId::SYS_FUTEX => 98usize,
        SyscallId::SYS_SET_ROBUST_LIST => 99usize,
        SyscallId::SYS_GET_ROBUST_LIST => 100usize,
        SyscallId::SYS_NANOSLEEP => 101usize,
        SyscallId::SYS_SETITIMER => 103usize,
        SyscallId::SYS_CLOCK_GETTIME => 113usize,
        SyscallId::SYS_SYSLOG => 116usize,
        SyscallId::SYS_SCHED_YIELD => 124usize,
        SyscallId::SYS_KILL => 129usize,
        SyscallId::SYS_TILL => 130usize,
        SyscallId::SYS_TGKILL => 131usize,
        SyscallId::SYS_SIGTIMEDWAIT => 137usize,
        SyscallId::SYS_TIMES => 153usize,
        SyscallId::SYS_SETPGID => 154usize,
        SyscallId::SYS_GETPGID => 155usize,
        SyscallId::SYS_UNAME => 160usize,
        SyscallId::SYS_GETRUSAGE => 165usize,
        SyscallId::SYS_UMASK => 166usize,
        SyscallId::SYS_GETTIMEOFDAY => 169usize,
        SyscallId::SYS_GETPID => 172usize,
        SyscallId::SYS_GETPPID => 173usize,
        SyscallId::SYS_GETUID => 174usize,
        SyscallId::SYS_GETEUID => 175usize,
        SyscallId::SYS_GETGID => 176usize,
        SyscallId::SYS_GETEGID => 177usize,
        SyscallId::SYS_GETTID => 178usize,
        SyscallId::SYS_SYSINFO => 179usize,
        SyscallId::SYS_SHMGET => 194usize,
        SyscallId::SYS_SHMCTL => 195usize,
        SyscallId::SYS_SHMAT => 196usize,
        SyscallId::SYS_SHMDT => 197usize,
        SyscallId::SYS_BRK => 214usize,
        SyscallId::SYS_MUNMAP => 215usize,
        SyscallId::SYS_CLONE => 220usize,
        SyscallId::SYS_EXECVE => 221usize,
        SyscallId::SYS_MMAP => 222usize,
        SyscallId::SYS_MPROTECT => 226usize,
        SyscallId::SYS_MSYNC => 227usize,
        SyscallId::SYS_WAIT4 => 260usize,
        SyscallId::SYS_PRLIMIT64 => 261usize,
        SyscallId::SYS_RENAMEAT2 => 276usize,
        SyscallId::SYS_GETRANDOM => 278usize,
        SyscallId::SYS_MEMBARRIER => 283usize,
        SyscallId::SYS_SCHED_SETAFFINITY => 122usize,
        SyscallId::SYS_SCHED_GETAFFINITY => 123usize,
        SyscallId::SYS_SCHEED_GETSCHEDULER => 120usize,
        SyscallId::SYS_SCHED_GETPARAM => 121usize,
        SyscallId::SYS_SCHED_SETSCHEDULER => 119usize,
        SyscallId::SYS_CLOCK_GETRES => 114usize,
        SyscallId::SYS_SOCKETPAIR => 199usize,
        SyscallId::SYS_MADVISE => 233usize,
        SyscallId::SYS_CLOCK_NANOSLEEP => 115usize,
        SyscallId::SYS_SIGACTION => 134usize,
        SyscallId::SYS_SIGPROCMASK => 135usize,
        SyscallId::SYS_SIGRETURN => 139usize,
        SyscallId::SYS_SOCKET => 198usize,
        SyscallId::SYS_BIND => 200usize,
        SyscallId::SYS_LISTEN => 201usize,
        SyscallId::SYS_ACCEPT => 202usize,
        SyscallId::SYS_CONNECT => 203usize,
        SyscallId::SYS_GETSOCKNAME => 204usize,
        SyscallId::SYS_SENDTO => 206usize,
        SyscallId::SYS_RECVFROM => 207usize,
        SyscallId::SYS_SETSOCKOPT => 208usize,
        SyscallId::SYS_TIMER_SETTIME => 110usize,
        SyscallId::SYS_TIMER_GETOVERRUN => 109usize,
    }
}

/// Whether `v` is the number of a system call the kernel serves.
pub open spec fn is_syscall_number(v: usize) -> bool {
    v == 102 || v == 17 || v == 23 || v == 24 || v == 25 || v == 29 || v == 34 || v == 35 ||
        v == 37 || v == 39 || v == 40 || v == 43 || v == 46 || v == 48 || v == 49 || v == 56 ||
        v == 57 || v == 59 || v == 61 || v == 62 || v == 63 || v == 64 || v == 65 || v == 66 ||
        v == 67 || v == 68 || v == 71 || v == 72 || v == 73 || v == 78 || v == 79 || v == 80 ||
        v == 81 || v == 82 || v == 88 || v == 93 || v == 94 || v == 96 || v == 98 || v == 99 ||
        v == 100 || v == 101 || v == 103 || v == 113 || v == 116 || v == 124 || v == 129 ||
        v == 130 || v == 131 || v == 137 || v == 153 || v == 154 || v == 155 || v == 160 ||
        v == 165 || v == 166 || v == 169 || v == 172 || v == 173 || v == 174 || v == 175 ||
        v == 176 || v == 177 || v == 178 || v == 179 || v == 194 || v == 195 || v == 196 ||
        v == 197 || v == 214 || v == 215 || v == 220 || v == 221 || v == 222 || v == 226 ||
        v == 227 || v == 260 || v == 261 || v == 276 || v == 278 || v == 283 || v == 122 ||
        v == 123 || v == 120 || v == 121 || v == 119 || v == 114 || v == 199 || v == 233 ||
        v == 115 || v == 134 || v == 135 || v == 139 || v == 198 || v == 200 || v == 201 ||
        v == 202 || v == 203 || v == 204 || v == 206 || v == 207 || v == 208 || v == 110 || v == 109
}

/// The system call of number `v`, if the kernel serves one.
pub open spec fn number_to_id(v: usize) -> Option<SyscallId> {
    match v {
        102usize => Some(SyscallId::SYS_GETITIMER),
        17usize => Some(SyscallId::SYS_GETCWD),
        23usize => Some(SyscallId::SYS_DUP),
        24usize => Some(SyscallId::SYS_DUP3),
        25usize => Some(SyscallId::SYS_FCNTL),
        29usize => Some(SyscallId::SYS_IOCTL),
        34usize => Some(SyscallId::SYS_MKDIRAT),
        35usize => Some(SyscallId::SYS_UNLINKAT),
        37usize => Some(SyscallId::SYS_LINKAT),
        39usize => Some(SyscallId::SYS_UMOUNT2),
        40usize => Some(SyscallId::SYS_MOUNT),
        43usize => Some(SyscallId::SYS_STATFS),
        46usize => Some(SyscallId::SYS_FTRUNCATE64),
        48usize => Some(SyscallId::SYS_FACCESSAT),
        49usize => Some(SyscallId::SYS_CHDIR),
        56usize => Some(SyscallId::SYS_OPENAT),
        57usize => Some(SyscallId::SYS_CLOSE),
        59usize => Some(SyscallId::SYS_PIPE2),
        61usize => Some(SyscallId::SYS_GETDENTS64),
        62usize => Some(SyscallId::SYS_LSEEK),
        63usize => Some(SyscallId::SYS_READ),
        64usize => Some(SyscallId::SYS_WRITE),
        65usize => Some(SyscallId::SYS_READV),
        66usize => Some(SyscallId::SYS_WRITEV),
        67usize => Some(SyscallId::SYS_PREAD64),
        68usize => Some(SyscallId::SYS_PWRITE64),
        71usize => Some(SyscallId::SYS_SENDFILE),
        72usize => Some(SyscallId::SYS_PSELECT6),
        73usize => Some(SyscallId::SYS_PPOLL),
        78usize => Some(SyscallId::SYS_READLINKAT),
        79usize => Some(SyscallId::SYS_NEWFSTATAT),
        80usize => Some(SyscallId::SYS_FSTAT),
        81usize => Some(SyscallId::SYS_SYNC),
        82usize => Some(SyscallId::SYS_FSYNC),
        88usize => Some(SyscallId::SYS_UTIMENSAT),
        93usize => Some(SyscallId::SYS_EXIT),
        94usize => Some(SyscallId::SYS_EXIT_GROUP),
        96usize => Some(SyscallId::SYS_SET_TID_ADDRESS),
        98usize => Some(SyscallId::SYS_FUTEX),
        99usize => Some(SyscallId::SYS_SET_ROBUST_LIST),
        100usize => Some(SyscallId::SYS_GET_ROBUST_LIST),
        101usize => Some(SyscallId::SYS_NANOSLEEP),
        103usize => Some(SyscallId::SYS_SETITIMER),
        113usize => Some(SyscallId::SYS_CLOCK_GETTIME),
        116usize => Some(SyscallId::SYS_SYSLOG),
        124usize => Some(SyscallId::SYS_SCHED_YIELD),
        129usize => Some(SyscallId::SYS_KILL),
        130usize => Some(SyscallId::SYS_TILL),
        131usize => Some(SyscallId::SYS_TGKILL),
        137usize => Some(SyscallId::SYS_SIGTIMEDWAIT),
        153usize => Some(SyscallId::SYS_TIMES),
        154usize => Some(SyscallId::SYS_SETPGID),
        155usize => Some(SyscallId::SYS_GETPGID),
        160usize => Some(SyscallId::SYS_UNAME),
        165usize => Some(SyscallId::SYS_GETRUSAGE),
        166usize => Some(SyscallId::SYS_UMASK),
        169usize => Some(SyscallId::SYS_GETTIMEOFDAY),
        172usize => Some(SyscallId::SYS_GETPID),
        173usize => Some(SyscallId::SYS_GETPPID),
        174usize => Some(SyscallId::SYS_GETUID),
        175usize => Some(SyscallId::SYS_GETEUID),
        176usize => Some(SyscallId::SYS_GETGID),
        177usize => Some(SyscallId::SYS_GETEGID),
        178usize => Some(SyscallId::SYS_GETTID),
        179usize => Some(SyscallId::SYS_SYSINFO),
        194usize => Some(SyscallId::SYS_SHMGET),
        195usize => Some(SyscallId::SYS_SHMCTL),
        196usize => Some(SyscallId::SYS_SHMAT),
        197usize => Some(SyscallId::SYS_SHMDT),
        214usize => Some(SyscallId::SYS_BRK),
        215usize => Some(SyscallId::SYS_MUNMAP),
        220usize => Some(SyscallId::SYS_CLONE),
        221usize => Some(SyscallId::SYS_EXECVE),
        222usize => Some(SyscallId::SYS_MMAP),
        226usize => Some(SyscallId::SYS_MPROTECT),
        227usize => Some(SyscallId::SYS_MSYNC),
        260usize => Some(SyscallId::SYS_WAIT4),
        261usize => Some(SyscallId::SYS_PRLIMIT64),
        276usize => Some(SyscallId::SYS_RENAMEAT2),
        278usize => Some(SyscallId::SYS_GETRANDOM),
        283usize => Some(SyscallId::SYS_MEMBARRIER),
        122usize => Some(SyscallId::SYS_SCHED_SETAFFINITY),
        123usize => Some(SyscallId::SYS_SCHED_GETAFFINITY),
        120usize => Some(SyscallId::SYS_SCHEED_GETSCHEDULER),
        121usize => Some(SyscallId::SYS_SCHED_GETPARAM),
        119usize => Some(SyscallId::SYS_SCHED_SETSCHEDULER),
        114usize => Some(SyscallId::SYS_CLOCK_GETRES),
        199usize => Some(SyscallId::SYS_SOCKETPAIR),
        233usize => Some(SyscallId::SYS_MADVISE),
        115usize => Some(SyscallId::SYS_CLOCK_NANOSLEEP),
        134usize => Some(SyscallId::SYS_SIGACTION),
        135usize => Some(SyscallId::SYS_SIGPROCMASK),
        139usize => Some(SyscallId::SYS_SIGRETURN),
        198usize => Some(SyscallId::SYS_SOCKET),
        200usize => Some(SyscallId::SYS_BIND),
        201usize => Some(SyscallId::SYS_LISTEN),
        202usize => Some(SyscallId::SYS_ACCEPT),
        203usize => Some(SyscallId::SYS_CONNECT),
        204usize => Some(SyscallId::SYS_GETSOCKNAME),
        206usize => Some(SyscallId::SYS_SENDTO),
        207usize => Some(SyscallId::SYS_RECVFROM),
        208usize => Some(SyscallId::SYS_SETSOCKOPT),
        110usize => Some(SyscallId::SYS_TIMER_SETTIME),
        109usize => Some(SyscallId::SYS_TIMER_GETOVERRUN),
        _ => None,
    }
}

/// Every system call is found again from its number: the numbers name the calls one to one.
pub proof fn law_number_round_trip(id: SyscallId)
    ensures
        number_to_id(syscall_number(id)) == Some(id),
        is_syscall_number(syscall_number(id)),
{
}

impl SyscallId {
    /// The system call of number `v`, or `None` when the kernel serves no call of that
    /// number (a fatal error).
    pub fn from_number(v: usize) -> (r: Option<SyscallId>)
        ensures
            r is Some <==> is_syscall_number(v),
            r matches Some(id) ==> syscall_number(id) == v,
            r == number_to_id(v),
    {
        match v {
            102 => Some(SyscallId::SYS_GETITIMER),
            17 => Some(SyscallId::SYS_GETCWD),
            23 => Some(SyscallId::SYS_DUP),
            24 => Some(SyscallId::SYS_DUP3),
            25 => Some(SyscallId::SYS_FCNTL),
            29 => Some(SyscallId::SYS_IOCTL),
            34 => Some(SyscallId::SYS_MKDIRAT),
            35 => Some(SyscallId::SYS_UNLINKAT),
            37 => Some(SyscallId::SYS_LINKAT),
            39 => Some(SyscallId::SYS_UMOUNT2),
            40 => Some(SyscallId::SYS_MOUNT),
            43 => Some(SyscallId::SYS_STATFS),
            46 => Some(SyscallId::SYS_FTRUNCATE64),
            48 => Some(SyscallId::SYS_FACCESSAT),
            49 => Some(SyscallId::SYS_CHDIR),
            56 => Some(SyscallId::SYS_OPENAT),
            57 => Some(SyscallId::SYS_CLOSE),
            59 => Some(SyscallId::SYS_PIPE2),
            61 => Some(SyscallId::SYS_GETDENTS64),
            62 => Some(SyscallId::SYS_LSEEK),
            63 => Some(SyscallId::SYS_READ),
            64 => Some(SyscallId::SYS_WRITE),
            65 => Some(SyscallId::SYS_READV),
            66 => Some(SyscallId::SYS_WRITEV),
            67 => Some(SyscallId::SYS_PREAD64),
            68 => Some(SyscallId::SYS_PWRITE64),
            71 => Some(SyscallId::SYS_SENDFILE),
            72 => Some(SyscallId::SYS_PSELECT6),
            73 => Some(SyscallId::SYS_PPOLL),
            78 => Some(SyscallId::SYS_READLINKAT),
            79 => Some(SyscallId::SYS_NEWFSTATAT),
            80 => Some(SyscallId::SYS_FSTAT),
            81 => Some(SyscallId::SYS_SYNC),
            82 => Some(SyscallId::SYS_FSYNC),
            88 => Some(SyscallId::SYS_UTIMENSAT),
            93 => Some(SyscallId::SYS_EXIT),
            94 => Some(SyscallId::SYS_EXIT_GROUP),
            96 => Some(SyscallId::SYS_SET_TID_ADDRESS),
            98 => Some(SyscallId::SYS_FUTEX),
            99 => Some(SyscallId::SYS_SET_ROBUST_LIST),
            100 => Some(SyscallId::SYS_GET_ROBUST_LIST),
            101 => Some(SyscallId::SYS_NANOSLEEP),
            103 => Some(SyscallId::SYS_SETITIMER),
            113 => Some(SyscallId::SYS_CLOCK_GETTIME),
            116 => Some(SyscallId::SYS_SYSLOG),
            124 => Some(SyscallId::SYS_SCHED_YIELD),
            129 => Some(SyscallId::SYS_KILL),
            130 => Some(SyscallId::SYS_TILL),
            131 => Some(SyscallId::SYS_TGKILL),
            137 => Some(SyscallId::SYS_SIGTIMEDWAIT),
            153 => Some(SyscallId::SYS_TIMES),
            154 => Some(SyscallId::SYS_SETPGID),
            155 => Some(SyscallId::SYS_GETPGID),
            160 => Some(SyscallId::SYS_UNAME),
            165 => Some(SyscallId::SYS_GETRUSAGE),
            166 => Some(SyscallId::SYS_UMASK),
            169 => Some(SyscallId::SYS_GETTIMEOFDAY),
            172 => Some(SyscallId::SYS_GETPID),
            173 => Some(SyscallId::SYS_GETPPID),
            174 => Some(SyscallId::SYS_GETUID),
            175 => Some(SyscallId::SYS_GETEUID),
            176 => Some(SyscallId::SYS_GETGID),
            177 => Some(SyscallId::SYS_GETEGID),
            178 => Some(SyscallId::SYS_GETTID),
            179 => Some(SyscallId::SYS_SYSINFO),
            194 => Some(SyscallId::SYS_SHMGET),
            195 => Some(SyscallId::SYS_SHMCTL),
            196 => Some(SyscallId::SYS_SHMAT),
            197 => Some(SyscallId::SYS_SHMDT),
            214 => Some(SyscallId::SYS_BRK),
            215 => Some(SyscallId::SYS_MUNMAP),
            220 => Some(SyscallId::SYS_CLONE),
            221 => Some(SyscallId::SYS_EXECVE),
            222 => Some(SyscallId::SYS_MMAP),
            226 => Some(SyscallId::SYS_MPROTECT),
            227 => Some(SyscallId::SYS_MSYNC),
            260 => Some(SyscallId::SYS_WAIT4),
            261 => Some(SyscallId::SYS_PRLIMIT64),
            276 => Some(SyscallId::SYS_RENAMEAT2),
            278 => Some(SyscallId::SYS_GETRANDOM),
            283 => Some(SyscallId::SYS_MEMBARRIER),
            122 => Some(SyscallId::SYS_SCHED_SETAFFINITY),
            123 => Some(SyscallId::SYS_SCHED_GETAFFINITY),
            120 => Some(SyscallId::SYS_SCHEED_GETSCHEDULER),
            121 => Some(SyscallId::SYS_SCHED_GETPARAM),
            119 => Some(SyscallId::SYS_SCHED_SETSCHEDULER),
            114 => Some(SyscallId::SYS_CLOCK_GETRES),
            199 => Some(SyscallId::SYS_SOCKETPAIR),
            233 => Some(SyscallId::SYS_MADVISE),
            115 => Some(SyscallId::SYS_CLOCK_NANOSLEEP),
            134 => Some(SyscallId::SYS_SIGACTION),
            135 => Some(SyscallId::SYS_SIGPROCMASK),
            139 => Some(SyscallId::SYS_SIGRETURN),
            198 => Some(SyscallId::SYS_SOCKET),
            200 => Some(SyscallId::SYS_BIND),
            201 => Some(SyscallId::SYS_LISTEN),
            202 => Some(SyscallId::SYS_ACCEPT),
            203 => Some(SyscallId::SYS_CONNECT),
            204 => Some(SyscallId::SYS_GETSOCKNAME),
            206 => Some(SyscallId::SYS_SENDTO),
            207 => Some(SyscallId::SYS_RECVFROM),
            208 => Some(SyscallId::SYS_SETSOCKOPT),
            110 => Some(SyscallId::SYS_TIMER_SETTIME),
            109 => Some(SyscallId::SYS_TIMER_GETOVERRUN),
            _ => None,
        }
    }

    /// The number of the system call.
    pub fn number(&self) -> (r: usize)
        ensures
            r == syscall_number(*self),
    {
        match self {
            SyscallId::SYS_GETITIMER => 102,
            SyscallId::SYS_GETCWD => 17,
            SyscallId::SYS_DUP => 23,
            SyscallId::SYS_DUP3 => 24,
            SyscallId::SYS_FCNTL => 25,
            SyscallId::SYS_IOCTL => 29,
            SyscallId::SYS_MKDIRAT => 34,
            SyscallId::SYS_UNLINKAT => 35,
            SyscallId::SYS_LINKAT => 37,
            SyscallId::SYS_UMOUNT2 => 39,
            SyscallId::SYS_MOUNT => 40,
            SyscallId::SYS_STATFS => 43,
            SyscallId::SYS_FTRUNCATE64 => 46,
            SyscallId::SYS_FACCESSAT => 48,
            SyscallId::SYS_CHDIR => 49,
            SyscallId::SYS_OPENAT => 56,
            SyscallId::SYS_CLOSE => 57,
            SyscallId::SYS_PIPE2 => 59,
            SyscallId::SYS_GETDENTS64 => 61,
            SyscallId::SYS_LSEEK => 62,
            SyscallId::SYS_READ => 63,
            SyscallId::SYS_WRITE => 64,
            SyscallId::SYS_READV => 65,
            SyscallId::SYS_WRITEV => 66,
            SyscallId::SYS_PREAD64 => 67,
            SyscallId::SYS_PWRITE64 => 68,
            SyscallId::SYS_SENDFILE => 71,
            SyscallId::SYS_PSELECT6 => 72,
            SyscallId::SYS_PPOLL => 73,
            SyscallId::SYS_READLINKAT => 78,
            SyscallId::SYS_NEWFSTATAT => 79,
            SyscallId::SYS_FSTAT => 80,
            SyscallId::SYS_SYNC => 81,
            SyscallId::SYS_FSYNC => 82,
            SyscallId::SYS_UTIMENSAT => 88,
            SyscallId::SYS_EXIT => 93,
            SyscallId::SYS_EXIT_GROUP => 94,
            SyscallId::SYS_SET_TID_ADDRESS => 96,
            SyscallId::SYS_FUTEX => 98,
            SyscallId::SYS_SET_ROBUST_LIST => 99,
            SyscallId::SYS_GET_ROBUST_LIST => 100,
            SyscallId::SYS_NANOSLEEP => 101,
            SyscallId::SYS_SETITIMER => 103,
            SyscallId::SYS_CLOCK_GETTIME => 113,
            SyscallId::SYS_SYSLOG => 116,
            SyscallId::SYS_SCHED_YIELD => 124,
            SyscallId::SYS_KILL => 129,
            SyscallId::SYS_TILL => 130,
            SyscallId::SYS_TGKILL => 131,
            SyscallId::SYS_SIGTIMEDWAIT => 137,
            SyscallId::SYS_TIMES => 153,
            SyscallId::SYS_SETPGID => 154,
            SyscallId::SYS_GETPGID => 155,
            SyscallId::SYS_UNAME => 160,
            SyscallId::SYS_GETRUSAGE => 165,
            SyscallId::SYS_UMASK => 166,
            SyscallId::SYS_GETTIMEOFDAY => 169,
            SyscallId::SYS_GETPID => 172,
            SyscallId::SYS_GETPPID => 173,
            SyscallId::SYS_GETUID => 174,
            SyscallId::SYS_GETEUID => 175,
            SyscallId::SYS_GETGID => 176,
            SyscallId::SYS_GETEGID => 177,
            SyscallId::SYS_GETTID => 178,
            SyscallId::SYS_SYSINFO => 179,
            SyscallId::SYS_SHMGET => 194,
            SyscallId::SYS_SHMCTL => 195,
            SyscallId::SYS_SHMAT => 196,
            SyscallId::SYS_SHMDT => 197,
            SyscallId::SYS_BRK => 214,
            SyscallId::SYS_MUNMAP => 215,
            SyscallId::SYS_CLONE => 220,
            SyscallId::SYS_EXECVE => 221,
            SyscallId::SYS_MMAP => 222,
            SyscallId::SYS_MPROTECT => 226,
            SyscallId::SYS_MSYNC => 227,
            SyscallId::SYS_WAIT4 => 260,
            SyscallId::SYS_PRLIMIT64 => 261,
            SyscallId::SYS_RENAMEAT2 => 276,
            SyscallId::SYS_GETRANDOM => 278,
            SyscallId::SYS_MEMBARRIER => 283,
            SyscallId::SYS_SCHED_SETAFFINITY => 122,
            SyscallId::SYS_SCHED_GETAFFINITY => 123,
            SyscallId::SYS_SCHEED_GETSCHEDULER => 120,
            SyscallId::SYS_SCHED_GETPARAM => 121,
            SyscallId::SYS_SCHED_SETSCHEDULER => 119,
            SyscallId::SYS_CLOCK_GETRES => 114,
            SyscallId::SYS_SOCKETPAIR => 199,
            SyscallId::SYS_MADVISE => 233,
            SyscallId::SYS_CLOCK_NANOSLEEP => 115,
            SyscallId::SYS_SIGACTION => 134,
            SyscallId::SYS_SIGPROCMASK => 135,
            SyscallId::SYS_SIGRETURN => 139,
            SyscallId::SYS_SOCKET => 198,
            SyscallId::SYS_BIND => 200,
            SyscallId::SYS_LISTEN => 201,
            SyscallId::SYS_ACCEPT => 202,
            SyscallId::SYS_CONNECT => 203,
            SyscallId::SYS_GETSOCKNAME => 204,
            SyscallId::SYS_SENDTO => 206,
            SyscallId::SYS_RECVFROM => 207,
            SyscallId::SYS_SETSOCKOPT => 208,
            SyscallId::SYS_TIMER_SETTIME => 110,
            SyscallId::SYS_TIMER_GETOVERRUN => 109,
        }
    }

    /// The name of the system call, as it is printed.
    pub fn name(&self) -> (r: &'static str)
        ensures
            r@ == syscall_name(*self)@,
    {
        match self {
            SyscallId::SYS_GETITIMER => "SYS_GETITIMER",
            SyscallId::SYS_GETCWD => "SYS_GETCWD",
            SyscallId::SYS_DUP => "SYS_DUP",
            SyscallId::SYS_DUP3 => "SYS_DUP3",
            SyscallId::SYS_FCNTL => "SYS_FCNTL",
            SyscallId::SYS_IOCTL => "SYS_IOCTL",
            SyscallId::SYS_MKDIRAT => "SYS_MKDIRAT",
            SyscallId::SYS_UNLINKAT => "SYS_UNLINKAT",
            SyscallId::SYS_LINKAT => "SYS_LINKAT",
            SyscallId::SYS_UMOUNT2 => "SYS_UMOUNT2",
            SyscallId::SYS_MOUNT => "SYS_MOUNT",
            SyscallId::SYS_STATFS => "SYS_STATFS",
            SyscallId::SYS_FTRUNCATE64 => "SYS_FTRUNCATE64",
            SyscallId::SYS_FACCESSAT => "SYS_FACCESSAT",
            SyscallId::SYS_CHDIR => "SYS_CHDIR",
            SyscallId::SYS_OPENAT => "SYS_OPENAT",
            SyscallId::SYS_CLOSE => "SYS_CLOSE",
            SyscallId::SYS_PIPE2 => "SYS_PIPE2",
            SyscallId::SYS_GETDENTS64 => "SYS_GETDENTS64",
            SyscallId::SYS_LSEEK => "SYS_LSEEK",
            SyscallId::SYS_READ => "SYS_READ",
            SyscallId::SYS_WRITE => "SYS_WRITE",
            SyscallId::SYS_READV => "SYS_READV",
            SyscallId::SYS_WRITEV => "SYS_WRITEV",
            SyscallId::SYS_PREAD64 => "SYS_PREAD64",
            SyscallId::SYS_PWRITE64 => "SYS_PWRITE64",
            SyscallId::SYS_SENDFILE => "SYS_SENDFILE",
            SyscallId::SYS_PSELECT6 => "SYS_PSELECT6",
            SyscallId::SYS_PPOLL => "SYS_PPOLL",
            SyscallId::SYS_READLINKAT => "SYS_READLINKAT",
            SyscallId::SYS_NEWFSTATAT => "SYS_NEWFSTATAT",
            SyscallId::SYS_FSTAT => "SYS_FSTAT",
            SyscallId::SYS_SYNC => "SYS_SYNC",
            SyscallId::SYS_FSYNC => "SYS_FSYNC",
            SyscallId::SYS_UTIMENSAT => "SYS_UTIMENSAT",
            SyscallId::SYS_EXIT => "SYS_EXIT",
            SyscallId::SYS_EXIT_GROUP => "SYS_EXIT_GROUP",
            SyscallId::SYS_SET_TID_ADDRESS => "SYS_SET_TID_ADDRESS",
            SyscallId::SYS_FUTEX => "SYS_FUTEX",
            SyscallId::SYS_SET_ROBUST_LIST => "SYS_SET_ROBUST_LIST",
            SyscallId::SYS_GET_ROBUST_LIST => "SYS_GET_ROBUST_LIST",
            SyscallId::SYS_NANOSLEEP => "SYS_NANOSLEEP",
            SyscallId::SYS_SETITIMER => "SYS_SETITIMER",
            SyscallId::SYS_CLOCK_GETTIME => "SYS_CLOCK_GETTIME",
            SyscallId::SYS_SYSLOG => "SYS_SYSLOG",
            SyscallId::SYS_SCHED_YIELD => "SYS_SCHED_YIELD",
            SyscallId::SYS_KILL => "SYS_KILL",
            SyscallId::SYS_TILL => "SYS_TILL",
            SyscallId::SYS_TGKILL => "SYS_TGKILL",
            SyscallId::SYS_SIGTIMEDWAIT => "SYS_SIGTIMEDWAIT",
            SyscallId::SYS_TIMES => "SYS_TIMES",
            SyscallId::SYS_SETPGID => "SYS_SETPGID",
            SyscallId::SYS_GETPGID => "SYS_GETPGID",
            SyscallId::SYS_UNAME => "SYS_UNAME",
            SyscallId::SYS_GETRUSAGE => "SYS_GETRUSAGE",
            SyscallId::SYS_UMASK => "SYS_UMASK",
            SyscallId::SYS_GETTIMEOFDAY => "SYS_GETTIMEOFDAY",
            SyscallId::SYS_GETPID => "SYS_GETPID",
            SyscallId::SYS_GETPPID => "SYS_GETPPID",
            SyscallId::SYS_GETUID => "SYS_GETUID",
            SyscallId::SYS_GETEUID => "SYS_GETEUID",
            SyscallId::SYS_GETGID => "SYS_GETGID",
            SyscallId::SYS_GETEGID => "SYS_GETEGID",
            SyscallId::SYS_GETTID => "SYS_GETTID",
            SyscallId::SYS_SYSINFO => "SYS_SYSINFO",
            SyscallId::SYS_SHMGET => "SYS_SHMGET",
            SyscallId::SYS_SHMCTL => "SYS_SHMCTL",
            SyscallId::SYS_SHMAT => "SYS_SHMAT",
            SyscallId::SYS_SHMDT => "SYS_SHMDT",
            SyscallId::SYS_BRK => "SYS_BRK",
            SyscallId::SYS_MUNMAP => "SYS_MUNMAP",
            SyscallId::SYS_CLONE => "SYS_CLONE",
            SyscallId::SYS_EXECVE => "SYS_EXECVE",
            SyscallId::SYS_MMAP => "SYS_MMAP",
            SyscallId::SYS_MPROTECT => "SYS_MPROTECT",
            SyscallId::SYS_MSYNC => "SYS_MSYNC",
            SyscallId::SYS_WAIT4 => "SYS_WAIT4",
            SyscallId::SYS_PRLIMIT64 => "SYS_PRLIMIT64",
            SyscallId::SYS_RENAMEAT2 => "SYS_RENAMEAT2",
            SyscallId::SYS_GETRANDOM => "SYS_GETRANDOM",
            SyscallId::SYS_MEMBARRIER => "SYS_MEMBARRIER",
            SyscallId::SYS_SCHED_SETAFFINITY => "SYS_SCHED_SETAFFINITY",
            SyscallId::SYS_SCHED_GETAFFINITY => "SYS_SCHED_GETAFFINITY",
            SyscallId::SYS_SCHEED_GETSCHEDULER => "SYS_SCHEED_GETSCHEDULER",
            SyscallId::SYS_SCHED_GETPARAM => "SYS_SCHED_GETPARAM",
            SyscallId::SYS_SCHED_SETSCHEDULER => "SYS_SCHED_SETSCHEDULER",
            SyscallId::SYS_CLOCK_GETRES => "SYS_CLOCK_GETRES",
            SyscallId::SYS_SOCKETPAIR => "SYS_SOCKETPAIR",
            SyscallId::SYS_MADVISE => "SYS_MADVISE",
            SyscallId::SYS_CLOCK_NANOSLEEP => "SYS_CLOCK_NANOSLEEP",
            SyscallId::SYS_SIGACTION => "SYS_SIGACTION",
            SyscallId::SYS_SIGPROCMASK => "SYS_SIGPROCMASK",
            SyscallId::SYS_SIGRETURN => "SYS_SIGRETURN",
            SyscallId::SYS_SOCKET => "SYS_SOCKET",
            SyscallId::SYS_BIND => "SYS_BIND",
            SyscallId::SYS_LISTEN => "SYS_LISTEN",
            SyscallId::SYS_ACCEPT => "SYS_ACCEPT",
            SyscallId::SYS_CONNECT => "SYS_CONNECT",
            SyscallId::SYS_GETSOCKNAME => "SYS_GETSOCKNAME",
            SyscallId::SYS_SENDTO => "SYS_SENDTO",
            SyscallId::SYS_RECVFROM => "SYS_RECVFROM",
            SyscallId::SYS_SETSOCKOPT => "SYS_SETSOCKOPT",
            SyscallId::SYS_TIMER_SETTIME => "SYS_TIMER_SETTIME",
            SyscallId::SYS_TIMER_GETOVERRUN => "SYS_TIMER_GETOVERRUN",
        }
    }
}

/// The name of a system call.
pub open spec fn syscall_name(id: SyscallId) -> &'static str {
    match id {
        SyscallId::SYS_GETITIMER => "SYS_GETITIMER",
        SyscallId::SYS_GETCWD => "SYS_GETCWD",
        SyscallId::SYS_DUP => "SYS_DUP",
        SyscallId::SYS_DUP3 => "SYS_DUP3",
        SyscallId::SYS_FCNTL => "SYS_FCNTL",
        SyscallId::SYS_IOCTL => "SYS_IOCTL",
        SyscallId::SYS_MKDIRAT => "SYS_MKDIRAT",
        SyscallId::SYS_UNLINKAT => "SYS_UNLINKAT",
        SyscallId::SYS_LINKAT => "SYS_LINKAT",
        SyscallId::SYS_UMOUNT2 => "SYS_UMOUNT2",
        SyscallId::SYS_MOUNT => "SYS_MOUNT",
        SyscallId::SYS_STATFS => "SYS_STATFS",
        SyscallId::SYS_FTRUNCATE64 => "SYS_FTRUNCATE64",
        SyscallId::SYS_FACCESSAT => "SYS_FACCESSAT",
        SyscallId::SYS_CHDIR => "SYS_CHDIR",
        SyscallId::SYS_OPENAT => "SYS_OPENAT",
        SyscallId::SYS_CLOSE => "SYS_CLOSE",
        SyscallId::SYS_PIPE2 => "SYS_PIPE2",
        SyscallId::SYS_GETDENTS64 => "SYS_GETDENTS64",
        SyscallId::SYS_LSEEK => "SYS_LSEEK",
        SyscallId::SYS_READ => "SYS_READ",
        SyscallId::SYS_WRITE => "SYS_WRITE",
        SyscallId::SYS_READV => "SYS_READV",
        SyscallId::SYS_WRITEV => "SYS_WRITEV",
        SyscallId::SYS_PREAD64 => "SYS_PREAD64",
        SyscallId::SYS_PWRITE64 => "SYS_PWRITE64",
        SyscallId::SYS_SENDFILE => "SYS_SENDFILE",
        SyscallId::SYS_PSELECT6 => "SYS_PSELECT6",
        SyscallId::SYS_PPOLL => "SYS_PPOLL",
        SyscallId::SYS_READLINKAT => "SYS_READLINKAT",
        SyscallId::SYS_NEWFSTATAT => "SYS_NEWFSTATAT",
        SyscallId::SYS_FSTAT => "SYS_FSTAT",
        SyscallId::SYS_SYNC => "SYS_SYNC",
        SyscallId::SYS_FSYNC => "SYS_FSYNC",
        SyscallId::SYS_UTIMENSAT => "SYS_UTIMENSAT",
        SyscallId::SYS_EXIT => "SYS_EXIT",
        SyscallId::SYS_EXIT_GROUP => "SYS_EXIT_GROUP",
        SyscallId::SYS_SET_TID_ADDRESS => "SYS_SET_TID_ADDRESS",
        SyscallId::SYS_FUTEX => "SYS_FUTEX",
        SyscallId::SYS_SET_ROBUST_LIST => "SYS_SET_ROBUST_LIST",
        SyscallId::SYS_GET_ROBUST_LIST => "SYS_GET_ROBUST_LIST",
        SyscallId::SYS_NANOSLEEP => "SYS_NANOSLEEP",
        SyscallId::SYS_SETITIMER => "SYS_SETITIMER",
        SyscallId::SYS_CLOCK_GETTIME => "SYS_CLOCK_GETTIME",
        SyscallId::SYS_SYSLOG => "SYS_SYSLOG",
        SyscallId::SYS_SCHED_YIELD => "SYS_SCHED_YIELD",
        SyscallId::SYS_KILL => "SYS_KILL",
        SyscallId::SYS_TILL => "SYS_TILL",
        SyscallId::SYS_TGKILL => "SYS_TGKILL",
        SyscallId::SYS_SIGTIMEDWAIT => "SYS_SIGTIMEDWAIT",
        SyscallId::SYS_TIMES => "SYS_TIMES",
        SyscallId::SYS_SETPGID => "SYS_SETPGID",
        SyscallId::SYS_GETPGID => "SYS_GETPGID",
        SyscallId::SYS_UNAME => "SYS_UNAME",
        SyscallId::SYS_GETRUSAGE => "SYS_GETRUSAGE",
        SyscallId::SYS_UMASK => "SYS_UMASK",
        SyscallId::SYS_GETTIMEOFDAY => "SYS_GETTIMEOFDAY",
        SyscallId::SYS_GETPID => "SYS_GETPID",
        SyscallId::SYS_GETPPID => "SYS_GETPPID",
        SyscallId::SYS_GETUID => "SYS_GETUID",
        SyscallId::SYS_GETEUID => "SYS_GETEUID",
        SyscallId::SYS_GETGID => "SYS_GETGID",
        SyscallId::SYS_GETEGID => "SYS_GETEGID",
        SyscallId::SYS_GETTID => "SYS_GETTID",
        SyscallId::SYS_SYSINFO => "SYS_SYSINFO",
        SyscallId::SYS_SHMGET => "SYS_SHMGET",
        SyscallId::SYS_SHMCTL => "SYS_SHMCTL",
        SyscallId::SYS_SHMAT => "SYS_SHMAT",
        SyscallId::SYS_SHMDT => "SYS_SHMDT",
        SyscallId::SYS_BRK => "SYS_BRK",
        SyscallId::SYS_MUNMAP => "SYS_MUNMAP",
        SyscallId::SYS_CLONE => "SYS_CLONE",
        SyscallId::SYS_EXECVE => "SYS_EXECVE",
        SyscallId::SYS_MMAP => "SYS_MMAP",
        SyscallId::SYS_MPROTECT => "SYS_MPROTECT",
        SyscallId::SYS_MSYNC => "SYS_MSYNC",
        SyscallId::SYS_WAIT4 => "SYS_WAIT4",
        SyscallId::SYS_PRLIMIT64 => "SYS_PRLIMIT64",
        SyscallId::SYS_RENAMEAT2 => "SYS_RENAMEAT2",
        SyscallId::SYS_GETRANDOM => "SYS_GETRANDOM",
        SyscallId::SYS_MEMBARRIER => "SYS_MEMBARRIER",
        SyscallId::SYS_SCHED_SETAFFINITY => "SYS_SCHED_SETAFFINITY",
        SyscallId::SYS_SCHED_GETAFFINITY => "SYS_SCHED_GETAFFINITY",
        SyscallId::SYS_SCHEED_GETSCHEDULER => "SYS_SCHEED_GETSCHEDULER",
        SyscallId::SYS_SCHED_GETPARAM => "SYS_SCHED_GETPARAM",
        SyscallId::SYS_SCHED_SETSCHEDULER => "SYS_SCHED_SETSCHEDULER",
        SyscallId::SYS_CLOCK_GETRES => "SYS_CLOCK_GETRES",
        SyscallId::SYS_SOCKETPAIR => "SYS_SOCKETPAIR",
        SyscallId::SYS_MADVISE => "SYS_MADVISE",
        SyscallId::SYS_CLOCK_NANOSLEEP => "SYS_CLOCK_NANOSLEEP",
        SyscallId::SYS_SIGACTION => "SYS_SIGACTION",
        SyscallId::SYS_SIGPROCMASK => "SYS_SIGPROCMASK",
        SyscallId::SYS_SIGRETURN => "SYS_SIGRETURN",
        SyscallId::SYS_SOCKET => "SYS_SOCKET",
        SyscallId::SYS_BIND => "SYS_BIND",
        SyscallId::SYS_LISTEN => "SYS_LISTEN",
        SyscallId::SYS_ACCEPT => "SYS_ACCEPT",
        SyscallId::SYS_CONNECT => "SYS_CONNECT",
        SyscallId::SYS_GETSOCKNAME => "SYS_GETSOCKNAME",
        SyscallId::SYS_SENDTO => "SYS_SENDTO",
        SyscallId::SYS_RECVFROM => "SYS_RECVFROM",
        SyscallId::SYS_SETSOCKOPT => "SYS_SETSOCKOPT",
        SyscallId::SYS_TIMER_SETTIME => "SYS_TIMER_SETTIME",
        SyscallId::SYS_TIMER_GETOVERRUN => "SYS_TIMER_GETOVERRUN",
    }
}

/// The calls that the kernel answers without doing anything, and their answers.
pub fn stub_result(id: SyscallId) -> (r: Option<isize>)
    ensures
        r == stub_answer(id),
{
    match id {
        SyscallId::SYS_SYSLOG => Some(0),
        SyscallId::SYS_FACCESSAT => Some(0),
        SyscallId::SYS_SYSINFO => Some(0),
        SyscallId::SYS_GETEGID => Some(0),
        SyscallId::SYS_GETGID => Some(0),
        SyscallId::SYS_GETPGID => Some(0),
        SyscallId::SYS_SETPGID => Some(0),
        SyscallId::SYS_UMASK => Some(0),
        SyscallId::SYS_FSYNC => Some(0),
        SyscallId::SYS_MSYNC => Some(0),
        SyscallId::SYS_SIGTIMEDWAIT => Some(0),
        SyscallId::SYS_MEMBARRIER => Some(0),
        SyscallId::SYS_SOCKET => Some(1),
        SyscallId::SYS_BIND => Some(0),
        SyscallId::SYS_LISTEN => Some(0),
        SyscallId::SYS_ACCEPT => Some(0),
        SyscallId::SYS_CONNECT => Some(0),
        SyscallId::SYS_GETSOCKNAME => Some(0),
        SyscallId::SYS_SENDTO => Some(1),
        SyscallId::SYS_SETSOCKOPT => Some(0),
        SyscallId::SYS_MADVISE => Some(0),
        SyscallId::SYS_TIMER_GETOVERRUN => Some(0),
        _ => None,
    }
}

/// What the kernel answers to the calls it does nothing for.
pub open spec fn stub_answer(id: SyscallId) -> Option<isize> {
    match id {
        SyscallId::SYS_SYSLOG => Some(0isize),
        SyscallId::SYS_FACCESSAT => Some(0isize),
        SyscallId::SYS_SYSINFO => Some(0isize),
        SyscallId::SYS_GETEGID => Some(0isize),
        SyscallId::SYS_GETGID => Some(0isize),
        SyscallId::SYS_GETPGID => Some(0isize),
        SyscallId::SYS_SETPGID => Some(0isize),
        SyscallId::SYS_UMASK => Some(0isize),
        SyscallId::SYS_FSYNC => Some(0isize),
        SyscallId::SYS_MSYNC => Some(0isize),
        SyscallId::SYS_SIGTIMEDWAIT => Some(0isize),
        SyscallId::SYS_MEMBARRIER => Some(0isize),
        SyscallId::SYS_SOCKET => Some(1isize),
        SyscallId::SYS_BIND => Some(0isize),
        SyscallId::SYS_LISTEN => Some(0isize),
        SyscallId::SYS_ACCEPT => Some(0isize),
        SyscallId::SYS_CONNECT => Some(0isize),
        SyscallId::SYS_GETSOCKNAME => Some(0isize),
        SyscallId::SYS_SENDTO => Some(1isize),
        SyscallId::SYS_SETSOCKOPT => Some(0isize),
        SyscallId::SYS_MADVISE => Some(0isize),
        SyscallId::SYS_TIMER_GETOVERRUN => Some(0isize),
        _ => None,
    }
}

} // verus!
