//! The memory system calls: `brk`, `mmap`, `munmap` and `mprotect`, on the address space
//! of the calling process.
use vstd::prelude::*;
use crate::address::{canonical_va, VPNRange, VirtAddr, VirtPageNum, PAGE_SIZE};
use crate::config::USER_HEAP_SIZE;
use crate::errno::SyscallError;
use crate::flags::{MapPermission, MmapFlags, MmapProts};
use crate::frame_allocator::FrameTracker;
use crate::memory_set::{mmap_start, MemorySet};
use crate::page_table::{PTEFlags, PageTable};

verus! {

/// `brk(brk)`: with 0, returns the end of the heap; else moves the end of the heap to
/// `brk` and returns 0 when `brk` lies in `[brk_start, brk_start + USER_HEAP_SIZE]`, and
/// fails with -1, changing nothing, when it does not.
pub fn sys_brk(ms: &mut MemorySet, brk: u64) -> (r: Result<isize, SyscallError>)
    requires
        old(ms).brk_start + USER_HEAP_SIZE <= u64::MAX,
        old(ms).brk_start <= old(ms).brk <= old(ms).brk_start + USER_HEAP_SIZE,
        old(ms).brk_start + USER_HEAP_SIZE <= isize::MAX,
    ensures
        brk == 0 ==> r == Ok::<isize, SyscallError>(old(ms).brk as isize) && *final(ms) == *old(ms),
        brk != 0 && old(ms).brk_start <= brk <= old(ms).brk_start + USER_HEAP_SIZE ==> r == Ok::<
            isize,
            SyscallError,
        >(0) && *final(ms) == (MemorySet { brk, ..*old(ms) }),
        brk != 0 && !(old(ms).brk_start <= brk <= old(ms).brk_start + USER_HEAP_SIZE) ==> (r matches Err(e)
            && crate::errno::syscall_error_code(e) == -1) && *final(ms) == *old(ms),
{
    if brk == 0 {
        let b = ms.grow_proc(0);
        proof {
            assert(*ms == *old(ms));
        }
        Ok(b as isize)
    } else {
        if brk < ms.brk_start || brk > ms.brk_start + USER_HEAP_SIZE {
            return Err(SyscallError::ParamInvalid(-1, String::new()));
        }
        let former_addr = ms.grow_proc(0);
        let grow_size: isize = (brk as i128 - former_addr as i128) as isize;
        ms.grow_proc(grow_size);
        Ok(0)
    }
}

/// `munmap(addr, length)`: gives up the `mmap` pages that cover the range, see
/// `MemorySet::munmap`; returns 0, and the handles on their frames for the caller to
/// release.
pub fn sys_munmap(ms: &mut MemorySet, addr: u64, length: usize) -> (r: (
    Result<isize, SyscallError>,
    Vec<FrameTracker>,
))
    requires
        addr + length + PAGE_SIZE <= u64::MAX,
    ensures
        r.0 == Ok::<isize, SyscallError>(0),
        ({
            let first = addr / PAGE_SIZE;
            let last = (addr + length + PAGE_SIZE - 1) / (PAGE_SIZE as int);
            &&& r.1@ == crate::vma::frames_in(old(ms).mmap_manager.frames(), first as u64, last as u64)
            &&& forall|v: u64|
                first <= v < last ==> !(#[trigger] final(ms).mmap_manager.pages().contains_key(v))
                    && !final(ms).mmap_manager.frames().contains_key(v)
            &&& forall|v: u64|
                !(first <= v < last) ==> #[trigger] final(ms).mmap_manager.pages().contains_key(v)
                    == old(ms).mmap_manager.pages().contains_key(v) && (old(ms).mmap_manager.pages().contains_key(v)
                    ==> final(ms).mmap_manager.pages()[v] == old(ms).mmap_manager.pages()[v])
                    && final(ms).mmap_manager.frames().contains_key(v) == old(ms).mmap_manager.frames().contains_key(v)
                    && (old(ms).mmap_manager.frames().contains_key(v)
                    ==> final(ms).mmap_manager.frames()[v] == old(ms).mmap_manager.frames()[v])
        }),
        final(ms).mmap_manager.mmap_start == old(ms).mmap_manager.mmap_start,
        final(ms).mmap_manager.mmap_top == old(ms).mmap_manager.mmap_top,
        *final(ms) == (MemorySet { mmap_manager: final(ms).mmap_manager, ..*old(ms) }),
{
    let (code, removed) = ms.munmap(addr, length);
    (Ok(code), removed)
}

/// The length of an `mmap` request rounded up to whole pages.
pub open spec fn page_round_up(length: usize) -> int {
    (length + PAGE_SIZE - 1) / (PAGE_SIZE as int) * (PAGE_SIZE as int)
}

/// Whether `mmap` refuses the descriptor `fd` of a mapping that is not anonymous: it is
/// negative, past the table, or empty.
pub open spec fn bad_fd(fd_table: Seq<Option<u64>>, fd: isize) -> bool {
    fd < 0 || fd >= fd_table.len() || fd_table[fd as int] is None
}

/// `mmap(addr, length, prot, flags, fd, offset)`: refuses an empty length
/// (`MmapLengthNotBigEnough(-1)`) and, for a mapping that is not anonymous, a bad
/// descriptor (`FdInvalid(-1, fd)`); else places the mapping, its length rounded up to
/// whole pages, with the file of `fd`, see `MemorySet::mmap`, and returns its address and
/// the handles on the frames given up, for the caller to release. It is a fatal error on
/// a protection or a flag it does not know, and on an address that is not page aligned.
pub fn sys_mmap(
    ms: &mut MemorySet,
    fd_table: &Vec<Option<u64>>,
    addr: u64,
    length: usize,
    prot: u64,
    flags: u64,
    fd: isize,
    offset: usize,
) -> (r: (Result<isize, SyscallError>, Vec<FrameTracker>))
    requires
        length + PAGE_SIZE - 1 <= usize::MAX,
        prot & !0x0300_0007u64 == 0,
        flags & !0x33u64 == 0,
        length != 0 && (flags & MmapFlags::MAP_ANONYMOUS == MmapFlags::MAP_ANONYMOUS || !bad_fd(fd_table@, fd)) ==> {
            let start = mmap_start(*old(ms), addr, MmapFlags { bits: flags });
            &&& addr % PAGE_SIZE == 0
            &&& start + page_round_up(length) + PAGE_SIZE <= u64::MAX
            &&& start <= isize::MAX
            &&& offset + ((start + page_round_up(length) + PAGE_SIZE - 1) / (PAGE_SIZE as int) - (start as int)
                / (PAGE_SIZE as int)) * (PAGE_SIZE as int) <= usize::MAX
        },
    ensures
        length == 0 ==> r.0 == Err::<isize, SyscallError>(SyscallError::MmapLengthNotBigEnough(-1isize)) && *final(ms)
            == *old(ms) && r.1@.len() == 0,
        length != 0 && flags & MmapFlags::MAP_ANONYMOUS != MmapFlags::MAP_ANONYMOUS && bad_fd(fd_table@, fd) ==> r.0
            == Err::<isize, SyscallError>(SyscallError::FdInvalid(-1isize, fd as usize)) && *final(ms) == *old(ms)
            && r.1@.len() == 0,
        length != 0 && (flags & MmapFlags::MAP_ANONYMOUS == MmapFlags::MAP_ANONYMOUS || !bad_fd(fd_table@, fd))
            ==> r.0 == Ok::<isize, SyscallError>(mmap_start(*old(ms), addr, MmapFlags { bits: flags }) as isize),
{
    if length == 0 {
        return (Err(SyscallError::MmapLengthNotBigEnough(-1)), Vec::new());
    }
    let ghost old_length = length;
    let sum = length + 4095;
    let length = sum & !4095usize;
    proof {
        assert(sum & !0xfffusize == sum / 4096 * 4096) by (bit_vector);
        assert(length == page_round_up(old_length));
    }
    let prot = MmapProts::from_bits(prot).unwrap();
    let flags = MmapFlags::from_bits(flags).unwrap();
    let mut file: Option<u64> = None;
    if !flags.contains(MmapFlags::MAP_ANONYMOUS) {
        if fd < 0 || (fd as usize) >= fd_table.len() {
            return (Err(SyscallError::FdInvalid(-1, fd as usize)), Vec::new());
        }
        match fd_table[fd as usize] {
            None => {
                return (Err(SyscallError::FdInvalid(-1, fd as usize)), Vec::new());
            },
            Some(f) => {
                file = Some(f);
            },
        }
    }
    let (start, removed) = ms.mmap(addr, length, prot, flags, file, offset);
    (Ok(start as isize), removed)
}

/// The flags that `mprotect` gives to the entries for protection `prot`: read, write and
/// execute shifted to R, W and X, and user access (no valid bit).
pub open spec fn mprotect_flags(prot: u64) -> u16 {
    (((prot & 7) << 1u64) + 16) as u16
}

/// The rights `mprotect` installs follow the protection bit by bit: R exactly when
/// `PROT_READ` (1) is asked, W exactly when `PROT_WRITE` (2) is, X exactly when `PROT_EXEC`
/// (4) is; user access always, and no other flag (not even the valid bit).
pub proof fn law_mprotect_rights(prot: u64)
    ensures
        (mprotect_flags(prot) & 2 != 0) == (prot & 1 != 0),
        (mprotect_flags(prot) & 4 != 0) == (prot & 2 != 0),
        (mprotect_flags(prot) & 8 != 0) == (prot & 4 != 0),
        mprotect_flags(prot) & 16 != 0,
        mprotect_flags(prot) & !0x1eu16 == 0,
{
    let v = mprotect_flags(prot);
    assert(((v & 2 != 0) == (prot & 1 != 0)) && ((v & 4 != 0) == (prot & 2 != 0)) && ((v & 8 != 0) == (prot & 4
        != 0)) && v & 16 != 0 && v & !0x1eu16 == 0) by (bit_vector)
        requires
            v == (((prot & 7) << 1u64) + 16) as u16,
    ;
}

/// The entry `e` with its flags replaced by `flags`, its frame number kept.
pub open spec fn with_flags(e: u64, flags: u16) -> u64 {
    ((e & !0x3ffu64) | (flags as u64)) as u64
}

/// `mprotect(addr, length, prot)`: gives the entry of every page that covers
/// `[addr, addr + length)` (in canonical form) the flags `mprotect_flags(prot)`, in
/// increasing order, and returns 0; stops at the first page without an entry with
/// `InvalidVirtAddress(-1, that page's address)`, the earlier pages changed. It is a fatal error when the range ends before it starts.
pub fn sys_mprotect(page_table: &mut PageTable, addr: u64, length: u64, prot: u64) -> (r: Result<
    isize,
    SyscallError,
>)
    requires
        addr + length <= u64::MAX,
        canonical_va((addr + length) as u64) + PAGE_SIZE <= u64::MAX,
        canonical_va(addr) as int / (PAGE_SIZE as int) <= (canonical_va((addr + length) as u64) + PAGE_SIZE - 1)
            / (PAGE_SIZE as int),
    ensures
        final(page_table).root_ppn() == old(page_table).root_ppn(),
        ({
            let first = canonical_va(addr) / PAGE_SIZE;
            let last = (canonical_va((addr + length) as u64) + PAGE_SIZE - 1) / (PAGE_SIZE as int);
            let f = mprotect_flags(prot);
            let stop = (exists|v: u64| first <= v < last && !old(page_table).entries().contains_key(v));
            &&& !stop ==> r == Ok::<isize, SyscallError>(0) && forall|v: u64| #[trigger]
                final(page_table).entries().contains_key(v) == old(page_table).entries().contains_key(v) && (
                old(page_table).entries().contains_key(v) ==> final(page_table).entries()[v] == (if first <= v < last {
                    with_flags(old(page_table).entries()[v], f)
                } else {
                    old(page_table).entries()[v]
                }))
            &&& stop ==> exists|j: u64|
                {
                    &&& first <= j < last
                    &&& !old(page_table).entries().contains_key(j)
                    &&& forall|v: u64| first <= v < j ==> old(page_table).entries().contains_key(v)
                    &&& r == Err::<isize, SyscallError>(SyscallError::InvalidVirtAddress(-1isize, VirtAddr(j << 12u64)))
                    &&& forall|v: u64| #[trigger]
                        final(page_table).entries().contains_key(v) == old(page_table).entries().contains_key(v) && (
                        old(page_table).entries().contains_key(v) ==> final(page_table).entries()[v] == (if first <= v
                            < j {
                            with_flags(old(page_table).entries()[v], f)
                        } else {
                            old(page_table).entries()[v]
                        }))
                }
        }),
{
    proof {
        let p = prot;
        assert((p & 7u64) << 1u64 <= 14) by (bit_vector);
    }
    let map_flags = (((prot & 7) << 1) + 16) as u16;
    proof {
        let p = prot;
        assert((((p & 7u64) << 1u64) + 16u64) as u16 & !0x1eu16 == 0) by (bit_vector);
    }
    let map_perm = MapPermission::from_bits(map_flags).unwrap();
    proof {
        let b = map_perm.bits;
        assert(b & !0x1eu16 == 0 ==> b & !0x1ffu16 == 0) by (bit_vector);
    }
    let pte_flags = PTEFlags::from_bits(map_perm.bits()).unwrap();
    let start_va = VirtAddr::from_u64(addr);
    let end_va = VirtAddr::from_u64(addr + length);
    let vpn_range = VPNRange::from_va(start_va, end_va);
    let first = vpn_range.get_start().0;
    let last = vpn_range.get_end().0;
    let mut vpn = first;
    while vpn < last
        invariant
            first == canonical_va(addr) / PAGE_SIZE,
            last == (canonical_va((addr + length) as u64) + PAGE_SIZE - 1) / (PAGE_SIZE as int),
            first <= vpn <= last,
            pte_flags.bits == mprotect_flags(prot),
            page_table.root_ppn() == old(page_table).root_ppn(),
            forall|v: u64| first <= v < vpn ==> old(page_table).entries().contains_key(v),
            forall|v: u64| #[trigger]
                page_table.entries().contains_key(v) == old(page_table).entries().contains_key(v) && (
                old(page_table).entries().contains_key(v) ==> page_table.entries()[v] == (if first <= v < vpn {
                    with_flags(old(page_table).entries()[v], mprotect_flags(prot))
                } else {
                    old(page_table).entries()[v]
                })),
        decreases last - vpn,
    {
        let ghost e0 = page_table.entries();
        match page_table.find_pte(VirtPageNum(vpn)) {
            Some(_) => {
                page_table.set_flags(VirtPageNum(vpn), pte_flags);
                proof {
                    assert forall|v: u64| #[trigger]
                        page_table.entries().contains_key(v) == old(page_table).entries().contains_key(v) && (
                        old(page_table).entries().contains_key(v) ==> page_table.entries()[v] == (if first <= v < vpn + 1 {
                            with_flags(old(page_table).entries()[v], mprotect_flags(prot))
                        } else {
                            old(page_table).entries()[v]
                        })) by {
                        assert(e0.contains_key(v) == old(page_table).entries().contains_key(v));
                    }
                }
            },
            None => {
                let va = VirtPageNum(vpn).start_addr();
                proof {
                    assert(!old(page_table).entries().contains_key(vpn));
                }
                return Err(SyscallError::InvalidVirtAddress(-1, va));
            },
        }
        vpn = vpn + 1;
    }
    proof {
        assert(vpn == last);
        assert(!exists|v: u64| first <= v < last && !old(page_table).entries().contains_key(v));
        assert forall|v: u64| #[trigger]
            page_table.entries().contains_key(v) == old(page_table).entries().contains_key(v) && (
            old(page_table).entries().contains_key(v) ==> page_table.entries()[v] == (if first <= v < last {
                with_flags(old(page_table).entries()[v], mprotect_flags(prot))
            } else {
                old(page_table).entries()[v]
            })) by {
            assert(first <= v < last <==> first <= v < vpn);
            assert(page_table.entries().contains_key(v) == old(page_table).entries().contains_key(v));
            if old(page_table).entries().contains_key(v) {
                if first <= v < vpn {
                    assert(page_table.entries()[v] == with_flags(old(page_table).entries()[v], mprotect_flags(prot)));
                } else {
                    assert(page_table.entries()[v] == old(page_table).entries()[v]);
                }
            }
        }
    }
    Ok(0)
}

} // verus!
