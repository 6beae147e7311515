//! Building the address space of a program from the program headers of its ELF file.
use vstd::prelude::*;
use crate::address::{canonical_va, VirtAddr, PAGE_SIZE};
use crate::config::{CLOCK_FREQ, LINK_BASE, TRAMPOLINE, USER_HEAP_SIZE, USER_STACK_SIZE};
use crate::elf::{elf_header_of, program_header_fits, program_header_of, read_elf, ElfHeader, ProgramHeaderInfo, SegmentType};
use crate::flags::{MapPermission, MapType};
use crate::frame_allocator::{FrameAllocatorModel, StackFrameAllocator};
use crate::memory_set::{MemorySet, KERNEL_RW, USER_RW};
use crate::page_table::{can_alloc, free_frames, pte_valid};
use crate::vm_area::{fresh, inflated, VmArea, VmAreaType};

verus! {

/// An entry of the auxiliary vector handed to a new program: a key and its value.
#[derive(Copy, Clone, PartialEq, Eq, Debug, Structural)]
pub struct AuxEntry(pub u64, pub u64);

/// Address of the program headers.
pub const AT_PHDR: u64 = 3;
/// Size of one program header.
pub const AT_PHENT: u64 = 4;
/// Number of program headers.
pub const AT_PHNUM: u64 = 5;
/// Page size.
pub const AT_PAGESZ: u64 = 6;
/// Base address of the interpreter.
pub const AT_BASE: u64 = 7;
/// Flags.
pub const AT_FLAGS: u64 = 8;
/// Entry point of the program.
pub const AT_ENTRY: u64 = 9;
/// Real user id.
pub const AT_UID: u64 = 11;
/// Effective user id.
pub const AT_EUID: u64 = 12;
/// Real group id.
pub const AT_GID: u64 = 13;
/// Effective group id.
pub const AT_EGID: u64 = 14;
/// Hardware capabilities.
pub const AT_HWCAP: u64 = 16;
/// Clock ticks per second.
pub const AT_CLKTCK: u64 = 17;
/// Whether the program runs in secure mode.
pub const AT_SECURE: u64 = 23;
/// Address of 16 random bytes.
pub const AT_RANDOM: u64 = 25;

/// The parts of the user address space that come from the kernel image and its layout.
#[derive(Copy, Clone, PartialEq, Eq, Debug, Structural)]
pub struct UserLayout {
    /// Physical address of the trampoline code.
    pub strampoline: u64,
    /// Virtual address of the signal return trampoline.
    pub signal_trampoline: u64,
    /// Physical address of the signal return code.
    pub user_sigreturn: u64,
    /// Virtual address of the trap context of the main thread.
    pub trap_context_base: u64,
    /// Top of the user stack.
    pub user_stack_base: u64,
}

/// A segment whose file bytes the caller copies into the frames of its area (see
/// `VmArea::copy_data`): `data_len` bytes of `file` from `data_start`, into area
/// `area_index` from byte `page_offset` of its first page.
#[derive(Copy, Clone, PartialEq, Eq, Debug, Structural)]
pub struct SegmentData {
    pub area_index: usize,
    pub file: u64,
    pub data_start: u64,
    pub data_len: u64,
    pub page_offset: u64,
}

/// A program ready to run: its address space, the top of its stack, its entry point, its
/// auxiliary vector, and the segments whose bytes remain to be copied in.
pub struct LoadedELF {
    pub memory_set: MemorySet,
    pub user_stack_top: u64,
    pub elf_entry: u64,
    pub auxs: Vec<AuxEntry>,
    pub segments: Vec<SegmentData>,
}

/// The segments to load.
pub open spec fn load_filter() -> spec_fn(ProgramHeaderInfo) -> bool {
    |p: ProgramHeaderInfo| p.seg_type == SegmentType::Load
}

/// The program headers of the segments to load, in order.
pub open spec fn loads(phs: Seq<ProgramHeaderInfo>) -> Seq<ProgramHeaderInfo> {
    phs.filter(load_filter())
}

/// Whether the program names an interpreter.
pub open spec fn is_dynamic(phs: Seq<ProgramHeaderInfo>) -> bool {
    exists|i: int| 0 <= i < phs.len() && (#[trigger] phs[i]).seg_type == SegmentType::Interp
}

/// The rights of a segment of the program: user access, and read, write and execute as its
/// flags give them.
pub open spec fn elf_perm(p: ProgramHeaderInfo) -> u16 {
    (16 + (if p.flags & 4 == 4 {
        2int
    } else {
        0
    }) + (if p.flags & 2 == 2 {
        4int
    } else {
        0
    }) + (if p.flags & 1 == 1 {
        8int
    } else {
        0
    })) as u16
}

/// The rights of a loaded segment follow its flags bit by bit: read exactly when `PF_R` (4)
/// is set, write exactly when `PF_W` (2) is, execute exactly when `PF_X` (1) is; user access
/// always, and no other bit.
pub proof fn law_segment_rights(p: ProgramHeaderInfo)
    ensures
        (elf_perm(p) & 2 == 2) == (p.flags & 4 == 4),
        (elf_perm(p) & 4 == 4) == (p.flags & 2 == 2),
        (elf_perm(p) & 8 == 8) == (p.flags & 1 == 1),
        elf_perm(p) & 16 == 16,
        elf_perm(p) & !0x1eu16 == 0,
{
    let a: u16 = if p.flags & 4 == 4 { 2 } else { 0 };
    let b: u16 = if p.flags & 2 == 2 { 4 } else { 0 };
    let c: u16 = if p.flags & 1 == 1 { 8 } else { 0 };
    let v = elf_perm(p);
    assert(v == (16 + a + b + c) as u16);
    assert(((v & 2 == 2) == (a == 2)) && ((v & 4 == 4) == (b == 4)) && ((v & 8 == 8) == (c == 8)) && v & 16 == 16
        && v & !0x1eu16 == 0) by (bit_vector)
        requires
            a == 0 || a == 2,
            b == 0 || b == 4,
            c == 0 || c == 8,
            v == (16 + a + b + c) as u16,
    ;
}

/// The auxiliary vector handed to a program whose header is `h`, whose program headers are
/// at `phdr`, whose interpreter is at `at_base` (0 for none) and whose stack tops at
/// `stack_top`.
pub open spec fn auxv(h: ElfHeader, phdr: u64, at_base: u64, stack_top: u64) -> Seq<AuxEntry> {
    seq![
        AuxEntry(AT_BASE, at_base),
        AuxEntry(0x21, 0),
        AuxEntry(0x28, 0),
        AuxEntry(0x29, 0),
        AuxEntry(0x2a, 0),
        AuxEntry(0x2b, 0),
        AuxEntry(0x2c, 0),
        AuxEntry(0x2d, 0),
        AuxEntry(AT_HWCAP, 0),
        AuxEntry(AT_PAGESZ, PAGE_SIZE),
        AuxEntry(AT_CLKTCK, CLOCK_FREQ),
        AuxEntry(AT_PHDR, phdr),
        AuxEntry(AT_PHENT, h.ph_entry_size as u64),
        AuxEntry(AT_PHNUM, h.ph_count as u64),
        AuxEntry(AT_FLAGS, 0),
        AuxEntry(AT_ENTRY, h.entry_point),
        AuxEntry(AT_UID, 0),
        AuxEntry(AT_EUID, 0),
        AuxEntry(AT_GID, 0),
        AuxEntry(AT_EGID, 0),
        AuxEntry(AT_SECURE, 0),
        AuxEntry(AT_RANDOM, (stack_top - 16) as u64),
    ]
}

/// Whether area `a` is the area of segment `p` of the program (of `file`), loaded `shift`
/// bytes up, with rights `perm` and file offset `off`.
pub open spec fn segment_area(a: VmArea, p: ProgramHeaderInfo, file: u64, shift: u64, perm: u16, off: int) -> bool {
    let start = canonical_va((p.virtual_addr + shift) as u64);
    let end = canonical_va((p.virtual_addr + p.mem_size + shift) as u64);
    &&& a.start() == start / PAGE_SIZE
    &&& a.end() == (end + PAGE_SIZE - 1) / (PAGE_SIZE as int)
    &&& a.map_type == MapType::Framed
    &&& a.area_type == VmAreaType::Elf
    &&& a.permission == MapPermission { bits: perm }
    &&& a.file == Some(file)
    &&& a.file_offset == off
}

/// Whether `s` is the copy of the bytes of segment `p` of `file`, loaded `shift` bytes up,
/// into area `index`.
pub open spec fn segment_data(s: SegmentData, p: ProgramHeaderInfo, file: u64, shift: u64, index: int) -> bool {
    &&& s.area_index == index
    &&& s.file == file
    &&& s.data_start == p.offset
    &&& s.data_len == p.file_size
    &&& s.page_offset == canonical_va((p.virtual_addr + shift) as u64) % PAGE_SIZE
}

/// Whether a new `Framed` area for the addresses `[start, end)` fits in `ms` with frames
/// from `a`: its end leaves a page below the top of the address space, its pages (rounded
/// out) are not mapped, and there are frames for all of them.
pub open spec fn segment_fits(ms: MemorySet, a: FrameAllocatorModel, start: u64, end: u64) -> bool {
    let lo = start / PAGE_SIZE;
    let hi = (end + PAGE_SIZE - 1) / (PAGE_SIZE as int);
    &&& end <= u64::MAX - PAGE_SIZE
    &&& lo <= hi
    &&& forall|v: u64| lo <= v < hi ==> !#[trigger] ms.page_table.is_mapped(v)
    &&& can_alloc(a, (hi - lo) as nat)
}

/// Maps a new `Framed` area of the program for the addresses `[start, end)`, with rights
/// `perm`, backed by `file` from `file_offset`; `false`, changing nothing, when the range is
/// out of bounds, a page is already mapped or frames are short (a fatal error).
fn map_segment(
    ms: &mut MemorySet,
    allocator: &mut StackFrameAllocator,
    start: u64,
    end: u64,
    perm: u16,
    file: Option<u64>,
    file_offset: usize,
) -> (r: bool)
    requires
        old(ms).wf(),
        old(allocator)@.wf(),
        perm & !0x1ffu16 == 0,
    ensures
        final(ms).wf(),
        final(allocator)@.wf(),
        final(ms).page_table.root_ppn() == old(ms).page_table.root_ppn(),
        r == segment_fits(*old(ms), old(allocator)@, start, end),
        !r ==> *final(ms) == *old(ms) && final(allocator)@ == old(allocator)@,
        r ==> {
            &&& final(ms).same_regions(*old(ms))
            &&& final(ms).vm_areas@.len() == old(ms).vm_areas@.len() + 1
            &&& final(ms).vm_areas@.drop_last() == old(ms).vm_areas@
            &&& exists|a: VmArea|
                fresh(a, start, end, MapType::Framed, VmAreaType::Elf, MapPermission { bits: perm }, file, file_offset)
                    && inflated(
                    a,
                    final(ms).vm_areas@.last(),
                    old(ms).entries(),
                    final(ms).entries(),
                    old(allocator)@,
                    final(allocator)@,
                )
        },
{
    if end > u64::MAX - PAGE_SIZE {
        return false;
    }
    let lo = start / PAGE_SIZE;
    let hi = (end + PAGE_SIZE - 1) / PAGE_SIZE;
    if lo > hi {
        return false;
    }
    if !ms.pages_unmapped(lo, hi) {
        return false;
    }
    if allocator.free_count() < (hi - lo) as u128 {
        return false;
    }
    let area = VmArea::new(
        VirtAddr(start),
        VirtAddr(end),
        MapType::Framed,
        VmAreaType::Elf,
        MapPermission { bits: perm },
        file,
        file_offset,
    );
    ms.insert(area, allocator);
    true
}

/// The rights of segment `p`.
fn segment_perm(p: &ProgramHeaderInfo) -> (r: u16)
    ensures
        r == elf_perm(*p),
        r & !0x1ffu16 == 0,
{
    let mut perm: u16 = 16;
    if p.is_read() {
        perm = perm + 2;
    }
    if p.is_write() {
        perm = perm + 4;
    }
    if p.is_execute() {
        perm = perm + 8;
    }
    proof {
        assert(perm <= 30);
        assert(perm <= 30 ==> perm & !0x1ffu16 == 0) by (bit_vector);
    }
    perm
}

/// Taking one more program header into account adds it to the segments to load when it is
/// one.
proof fn lemma_loads_step(phs: Seq<ProgramHeaderInfo>, i: int)
    requires
        0 <= i < phs.len(),
    ensures
        loads(phs.take(i + 1)) == (if phs[i].seg_type == SegmentType::Load {
            loads(phs.take(i)).push(phs[i])
        } else {
            loads(phs.take(i))
        }),
{
    reveal(Seq::filter);
    assert(phs.take(i + 1).drop_last() =~= phs.take(i));
    assert(phs.take(i + 1).last() == phs[i]);
}

/// The rights of the segments of a program (`interp` false) or of its interpreter (all
/// rights and user access).
pub open spec fn load_perm(p: ProgramHeaderInfo, interp: bool) -> u16 {
    if interp {
        30u16
    } else {
        elf_perm(p)
    }
}

/// The file offset recorded in the area of a segment: the offset of its start in its page
/// for a program, 0 for an interpreter.
pub open spec fn load_offset(p: ProgramHeaderInfo, shift: u64, interp: bool) -> int {
    if interp {
        0
    } else {
        (canonical_va((p.virtual_addr + shift) as u64) % PAGE_SIZE) as int
    }
}

/// Whether the segments `ls` of `file`, loaded `shift` bytes up, are the areas of `areas`
/// from index `n0` on and the copies of `segs` from index `s0` on.
pub open spec fn segments_loaded(
    areas: Seq<VmArea>,
    segs: Seq<SegmentData>,
    n0: int,
    s0: int,
    ls: Seq<ProgramHeaderInfo>,
    file: u64,
    shift: u64,
    interp: bool,
) -> bool {
    &&& areas.len() == n0 + ls.len()
    &&& segs.len() == s0 + ls.len()
    &&& forall|k: int|
        0 <= k < ls.len() ==> segment_area(
            #[trigger] areas[n0 + k],
            ls[k],
            file,
            shift,
            load_perm(ls[k], interp),
            load_offset(ls[k], shift, interp),
        ) && segment_data(segs[s0 + k], ls[k], file, shift, n0 + k)
}

/// The pages `[lo, hi)` that program header `p`, loaded `shift` bytes up, maps: for a
/// segment to load, those that cover its addresses (as [`segment_fits`] counts them); none
/// for another header.
pub open spec fn header_pages(p: ProgramHeaderInfo, shift: u64) -> (int, int) {
    if p.seg_type == SegmentType::Load {
        let start = canonical_va((p.virtual_addr + shift) as u64);
        let end = canonical_va((p.virtual_addr + p.mem_size + shift) as u64);
        ((start / PAGE_SIZE) as int, (end + PAGE_SIZE - 1) / (PAGE_SIZE as int))
    } else {
        (0, 0)
    }
}

/// How many pages the range `r` holds.
pub open spec fn page_count(r: (int, int)) -> int {
    if r.0 <= r.1 {
        r.1 - r.0
    } else {
        0
    }
}

/// The frames that loading the first `n` headers of `phs`, `shift` bytes up, takes.
pub open spec fn frames_for(phs: Seq<ProgramHeaderInfo>, shift: u64, n: int) -> int
    decreases n,
{
    if n <= 0 {
        0
    } else {
        frames_for(phs, shift, n - 1) + page_count(header_pages(phs[n - 1], shift))
    }
}

/// Whether one of the first `n` headers of `phs`, loaded `shift` bytes up, maps page `v`.
pub open spec fn taken_by(phs: Seq<ProgramHeaderInfo>, shift: u64, n: int, v: int) -> bool {
    exists|j: int| 0 <= j < n && header_pages(phs[j], shift).0 <= v < #[trigger] header_pages(phs[j], shift).1
}

/// Whether program header `p` cannot be loaded `shift` bytes up, whatever is mapped: its
/// kind is unknown, or it is a segment to load whose addresses overflow, whose end is on the
/// last page, or whose pages run backwards.
pub open spec fn header_bad(p: ProgramHeaderInfo, shift: u64) -> bool {
    ||| p.seg_type == SegmentType::Invalid
    ||| p.seg_type == SegmentType::Load && (p.virtual_addr > u64::MAX - shift || p.mem_size > u64::MAX - shift
        - p.virtual_addr || canonical_va((p.virtual_addr + p.mem_size + shift) as u64) > u64::MAX - PAGE_SIZE
        || header_pages(p, shift).0 > header_pages(p, shift).1)
}

/// The frames taken by the first `n` headers never exceed those taken by the first `m`,
/// for `n <= m`, and are never negative.
proof fn lemma_frames_for_grows(phs: Seq<ProgramHeaderInfo>, shift: u64, n: int, m: int)
    requires
        0 <= n <= m,
    ensures
        0 <= frames_for(phs, shift, n) <= frames_for(phs, shift, m),
    decreases m,
{
    if n < m {
        lemma_frames_for_grows(phs, shift, n, m - 1);
    } else if n > 0 {
        lemma_frames_for_grows(phs, shift, n - 1, n - 1);
    }
}

/// Whether program header `p` (loaded `shift` bytes up) stops the loading when `ms` and `a`
/// are the address space and the frames so far: its kind is unknown, or it is a segment to
/// load whose addresses overflow or that does not fit (see [`segment_fits`]).
pub open spec fn header_fails(ms: MemorySet, a: FrameAllocatorModel, p: ProgramHeaderInfo, shift: u64) -> bool {
    ||| p.seg_type == SegmentType::Invalid
    ||| p.seg_type == SegmentType::Load && (p.virtual_addr > u64::MAX - shift || p.mem_size > u64::MAX - shift
        - p.virtual_addr || !segment_fits(
        ms,
        a,
        canonical_va((p.virtual_addr + shift) as u64),
        canonical_va((p.virtual_addr + p.mem_size + shift) as u64),
    ))
}

/// Maps the segments to load of `phs` (of `file`, loaded `shift` bytes up) as areas of `ms`,
/// in order, and records the copies of their bytes in `segs`. `false` when a program header
/// has a kind the parser does not know, or a segment does not fit (a fatal error).
fn load_segments(
    ms: &mut MemorySet,
    allocator: &mut StackFrameAllocator,
    file: u64,
    phs: &Vec<ProgramHeaderInfo>,
    shift: u64,
    interp: bool,
    segs: &mut Vec<SegmentData>,
) -> (r: bool)
    requires
        old(ms).wf(),
        old(allocator)@.wf(),
        old(ms).vm_areas@.len() < usize::MAX - phs@.len(),
    ensures
        final(ms).wf(),
        final(allocator)@.wf(),
        final(ms).page_table.root_ppn() == old(ms).page_table.root_ppn(),
        final(ms).same_regions(*old(ms)),
        final(ms).vm_areas@.subrange(0, old(ms).vm_areas@.len() as int) == old(ms).vm_areas@,
        final(segs)@.subrange(0, old(segs)@.len() as int) == old(segs)@,
        r ==> segments_loaded(
            final(ms).vm_areas@,
            final(segs)@,
            old(ms).vm_areas@.len() as int,
            old(segs)@.len() as int,
            loads(phs@),
            file,
            shift,
            interp,
        ),
        !r ==> exists|k: int|
            0 <= k < phs@.len() && (forall|j: int| 0 <= j < k ==> (#[trigger] phs@[j]).seg_type != SegmentType::Invalid)
                && segments_loaded(
                final(ms).vm_areas@,
                final(segs)@,
                old(ms).vm_areas@.len() as int,
                old(segs)@.len() as int,
                loads(phs@.take(k)),
                file,
                shift,
                interp,
            ) && header_fails(*final(ms), final(allocator)@, phs@[k], shift) && free_frames(final(allocator)@)
                == free_frames(old(allocator)@) - frames_for(phs@, shift, k) && (forall|v: u64|
                #[trigger] final(ms).page_table.is_mapped(v) ==> old(ms).page_table.is_mapped(v) || taken_by(
                    phs@,
                    shift,
                    k,
                    v as int,
                )),
        r ==> free_frames(final(allocator)@) == free_frames(old(allocator)@) - frames_for(phs@, shift, phs@.len() as int),
        r ==> forall|v: u64|
            #[trigger] final(ms).page_table.is_mapped(v) ==> old(ms).page_table.is_mapped(v) || taken_by(
                phs@,
                shift,
                phs@.len() as int,
                v as int,
            ),
{
    let ghost n0 = ms.vm_areas@.len() as int;
    let ghost s0 = segs@.len() as int;
    let ghost areas0 = ms.vm_areas@;
    let ghost segs0 = segs@;
    let ghost ms0 = *ms;
    let mut i: usize = 0;
    while i < phs.len()
        invariant
            i <= phs@.len(),
            ms.wf(),
            allocator@.wf(),
            ms0 == *old(ms),
            segs0 == old(segs)@,
            n0 == areas0.len(),
            s0 == segs0.len(),
            ms.page_table.root_ppn() == ms0.page_table.root_ppn(),
            ms.same_regions(ms0),
            ms0.vm_areas@ == areas0,
            n0 + phs@.len() < usize::MAX,
            ms.vm_areas@.subrange(0, n0) == areas0,
            segs@.subrange(0, s0) == segs0,
            segments_loaded(ms.vm_areas@, segs@, n0, s0, loads(phs@.take(i as int)), file, shift, interp),
            loads(phs@.take(i as int)).len() <= i,
            forall|j: int| 0 <= j < i ==> (#[trigger] phs@[j]).seg_type != SegmentType::Invalid,
            free_frames(allocator@) == free_frames(old(allocator)@) - frames_for(phs@, shift, i as int),
            forall|v: u64| #[trigger] ms.page_table.is_mapped(v) ==> ms0.page_table.is_mapped(v) || taken_by(
                phs@,
                shift,
                i as int,
                v as int,
            ),
        decreases phs@.len() - i,
    {
        let p = phs[i];
        proof {
            lemma_loads_step(phs@, i as int);
        }
        match p.seg_type {
            SegmentType::Invalid => {
                proof {
                    assert(header_fails(*ms, allocator@, phs@[i as int], shift));
                }
                return false;
            },
            SegmentType::Load => {
                if p.virtual_addr > u64::MAX - shift || p.mem_size > u64::MAX - shift - p.virtual_addr {
                    proof {
                        assert(header_fails(*ms, allocator@, phs@[i as int], shift));
                    }
                    return false;
                }
                let start = VirtAddr::from_u64(p.virtual_addr + shift).0;
                let end = VirtAddr::from_u64(p.virtual_addr + p.mem_size + shift).0;
                let perm = if interp {
                    proof {
                        crate::memory_set::lemma_flag_consts();
                    }
                    30u16
                } else {
                    segment_perm(&p)
                };
                let off: usize = if interp {
                    0
                } else {
                    (start % PAGE_SIZE) as usize
                };
                let ghost before = *ms;
                let ghost segs_before = segs@;
                let ghost alloc_before = allocator@;
                if !map_segment(ms, allocator, start, end, perm, Some(file), off) {
                    proof {
                        assert(header_fails(*ms, allocator@, phs@[i as int], shift));
                    }
                    return false;
                }
                let index = ms.vm_areas.len() - 1;
                segs.push(
                    SegmentData {
                        area_index: index,
                        file,
                        data_start: p.offset,
                        data_len: p.file_size,
                        page_offset: start % PAGE_SIZE,
                    },
                );
                proof {
                    let ls = loads(phs@.take(i as int));
                    let ls1 = loads(phs@.take(i + 1));
                    assert(ls1 == ls.push(p));
                    let a = ms.vm_areas@.last();
                    let fa = choose|fa: VmArea|
                        fresh(fa, start, end, MapType::Framed, VmAreaType::Elf, MapPermission { bits: perm }, Some(file), off)
                            && inflated(fa, ms.vm_areas@.last(), before.entries(), ms.entries(), alloc_before, allocator@);
                    assert forall|k: int| 0 <= k < ls1.len() implies segment_area(
                        #[trigger] ms.vm_areas@[n0 + k],
                        ls1[k],
                        file,
                        shift,
                        load_perm(ls1[k], interp),
                        load_offset(ls1[k], shift, interp),
                    ) && segment_data(segs@[s0 + k], ls1[k], file, shift, n0 + k) by {
                        if k < ls.len() {
                            assert(ms.vm_areas@[n0 + k] == before.vm_areas@[n0 + k]);
                            assert(segs@[s0 + k] == segs_before[s0 + k]);
                        }
                    }
                    assert(ms.vm_areas@.subrange(0, n0) =~= areas0) by {
                        assert(before.vm_areas@.subrange(0, n0) == areas0);
                        assert forall|j: int| 0 <= j < n0 implies ms.vm_areas@[j] == areas0[j] by {
                            assert(ms.vm_areas@[j] == before.vm_areas@[j]);
                            assert(before.vm_areas@.subrange(0, n0)[j] == areas0[j]);
                        }
                    }
                    assert(segs@.subrange(0, s0) =~= segs0) by {
                        assert forall|j: int| 0 <= j < s0 implies segs@[j] == segs0[j] by {
                            assert(segs_before.subrange(0, s0)[j] == segs0[j]);
                        }
                    }
                    let hp = header_pages(phs@[i as int], shift);
                    assert(hp.0 == fa.start() && hp.1 == fa.end());
                    assert(frames_for(phs@, shift, i + 1) == frames_for(phs@, shift, i as int) + (hp.1 - hp.0));
                    assert forall|v: u64| #[trigger] ms.page_table.is_mapped(v) implies ms0.page_table.is_mapped(v)
                        || taken_by(phs@, shift, i + 1, v as int) by {
                        if fa.holds(v) {
                            assert(header_pages(phs@[i as int], shift).0 <= v < header_pages(phs@[i as int], shift).1);
                        } else {
                            assert(before.page_table.is_mapped(v));
                            if !ms0.page_table.is_mapped(v) {
                                let j = choose|j: int| 0 <= j < i && header_pages(phs@[j], shift).0 <= v < #[trigger] header_pages(phs@[j], shift).1;
                                assert(0 <= j < i + 1 && header_pages(phs@[j], shift).0 <= v < header_pages(phs@[j], shift).1);
                            }
                        }
                    }
                }
            },
            _ => {
                proof {
                    assert(frames_for(phs@, shift, i + 1) == frames_for(phs@, shift, i as int));
                    assert forall|v: u64| #[trigger] ms.page_table.is_mapped(v) implies ms0.page_table.is_mapped(v)
                        || taken_by(phs@, shift, i + 1, v as int) by {
                        if !ms0.page_table.is_mapped(v) {
                            let j = choose|j: int| 0 <= j < i && header_pages(phs@[j], shift).0 <= v < #[trigger] header_pages(phs@[j], shift).1;
                            assert(0 <= j < i + 1 && header_pages(phs@[j], shift).0 <= v < header_pages(phs@[j], shift).1);
                        }
                    }
                }
            },
        }
        i = i + 1;
    }
    proof {
        assert(phs@.take(phs@.len() as int) =~= phs@);
    }
    true
}

/// Finds the first and the last segment to load of `phs`, and whether it names an
/// interpreter.
fn scan_program(phs: &Vec<ProgramHeaderInfo>) -> (r: (Option<usize>, Option<usize>, bool))
    ensures
        r.0 is None <==> loads(phs@).len() == 0,
        r.1 is None <==> loads(phs@).len() == 0,
        r.0 matches Some(f) ==> f < phs@.len() && phs@[f as int] == loads(phs@)[0],
        r.1 matches Some(l) ==> l < phs@.len() && phs@[l as int] == loads(phs@).last(),
        r.2 == is_dynamic(phs@),
{
    let mut first: Option<usize> = None;
    let mut last: Option<usize> = None;
    let mut dynamic = false;
    let mut i: usize = 0;
    while i < phs.len()
        invariant
            i <= phs@.len(),
            first is None <==> loads(phs@.take(i as int)).len() == 0,
            last is None <==> loads(phs@.take(i as int)).len() == 0,
            first matches Some(f) ==> f < i && phs@[f as int] == loads(phs@.take(i as int))[0],
            last matches Some(l) ==> l < i && phs@[l as int] == loads(phs@.take(i as int)).last(),
            dynamic == exists|j: int| 0 <= j < i && (#[trigger] phs@[j]).seg_type == SegmentType::Interp,
        decreases phs@.len() - i,
    {
        proof {
            lemma_loads_step(phs@, i as int);
        }
        match phs[i].seg_type {
            SegmentType::Load => {
                if first.is_none() {
                    first = Some(i);
                }
                last = Some(i);
            },
            SegmentType::Interp => {
                dynamic = true;
            },
            _ => {},
        }
        i = i + 1;
    }
    proof {
        assert(phs@.take(phs@.len() as int) =~= phs@);
    }
    (first, last, dynamic)
}

/// Where the program with program headers `phs` ends: the canonical end of its last segment
/// to load.
pub open spec fn program_end(phs: Seq<ProgramHeaderInfo>) -> u64 {
    canonical_va((loads(phs).last().virtual_addr + loads(phs).last().mem_size) as u64)
}

/// Whether `l` is the program that `build_elf_space` builds from these arguments (the
/// interpreter given by its file, header and program headers).
pub open spec fn elf_space_built(
    file: u64,
    h: ElfHeader,
    phs: Seq<ProgramHeaderInfo>,
    interp: Option<(u64, ElfHeader, Seq<ProgramHeaderInfo>)>,
    layout: UserLayout,
    l: LoadedELF,
) -> bool {
    let ls = loads(phs);
    let dynamic = is_dynamic(phs);
    let head = canonical_va(ls[0].virtual_addr);
    let brk = (program_end(phs) + PAGE_SIZE) as u64;
    let stack_bottom = (layout.user_stack_base - USER_STACK_SIZE) as u64;
    let it = interp->0;
    let interp_ls = loads(it.2);
    &&& ls.len() > 0
    &&& dynamic ==> interp is Some
    &&& l.memory_set.wf()
    &&& l.user_stack_top == layout.user_stack_base
    &&& l.elf_entry == (if dynamic {
        (LINK_BASE + it.1.entry_point) as u64
    } else {
        h.entry_point
    })
    &&& l.auxs@ == auxv(
        h,
        (head + h.ph_offset) as u64,
        if dynamic {
            LINK_BASE
        } else {
            0
        },
        layout.user_stack_base,
    )
    &&& l.memory_set.user_stack_start == stack_bottom
    &&& l.memory_set.user_stack_end == layout.user_stack_base
    &&& fresh(
        l.memory_set.user_stack_areas,
        canonical_va(stack_bottom),
        canonical_va(layout.user_stack_base),
        MapType::Framed,
        VmAreaType::UserStack,
        MapPermission { bits: USER_RW },
        None,
        0,
    )
    &&& l.memory_set.brk_start == brk
    &&& l.memory_set.brk == brk
    &&& fresh(
        l.memory_set.heap_areas,
        canonical_va(brk),
        canonical_va((brk + USER_HEAP_SIZE) as u64),
        MapType::Framed,
        VmAreaType::UserHeap,
        MapPermission { bits: USER_RW },
        Some(file),
        (brk % PAGE_SIZE) as usize,
    )
    &&& l.memory_set.vm_areas@[0].area_type == VmAreaType::TrapContext
    &&& !dynamic ==> segments_loaded(l.memory_set.vm_areas@, l.segments@, 1, 0, ls, file, 0, false)
    &&& dynamic ==> segments_loaded(
        l.memory_set.vm_areas@.subrange(0, 1 + ls.len() as int),
        l.segments@.subrange(0, ls.len() as int),
        1,
        0,
        ls,
        file,
        0,
        false,
    ) && segments_loaded(
        l.memory_set.vm_areas@,
        l.segments@,
        1 + ls.len() as int,
        ls.len() as int,
        interp_ls,
        it.0,
        LINK_BASE,
        true,
    )
}

/// The pages `[lo, hi)` of the trap context of `layout`: from that of the trap context base
/// to that of the signal trampoline.
pub open spec fn trap_range(layout: UserLayout) -> (int, int) {
    let sig = canonical_va(layout.signal_trampoline);
    ((canonical_va(layout.trap_context_base) / PAGE_SIZE) as int, (sig + PAGE_SIZE - 1) / (PAGE_SIZE as int))
}

/// Whether page `v` is one that every address space of `layout` maps before the program:
/// that of the trampoline, that of the signal trampoline, or one of the trap context.
pub open spec fn fixed_page(layout: UserLayout, v: int) -> bool {
    ||| v == TRAMPOLINE / PAGE_SIZE
    ||| v == canonical_va(layout.signal_trampoline) / PAGE_SIZE
    ||| trap_range(layout).0 <= v < trap_range(layout).1
}

/// Whether `layout` itself stops the building of an address space: an address of the
/// trampolines is not page aligned, the signal trampoline shares the trampoline's page or is
/// on the last page, the trap context runs backwards or over the trampoline, or the stack
/// does not fit under its top.
pub open spec fn layout_fails(layout: UserLayout) -> bool {
    let sig = canonical_va(layout.signal_trampoline);
    let t = trap_range(layout);
    let top = layout.user_stack_base;
    ||| (layout.strampoline % 0x100_0000_0000_0000) % PAGE_SIZE != 0
    ||| sig % PAGE_SIZE != 0
    ||| (layout.user_sigreturn % 0x100_0000_0000_0000) % PAGE_SIZE != 0
    ||| sig / PAGE_SIZE == TRAMPOLINE / PAGE_SIZE
    ||| sig > u64::MAX - PAGE_SIZE
    ||| t.0 > t.1
    ||| t.0 <= TRAMPOLINE / PAGE_SIZE < t.1
    ||| top < USER_STACK_SIZE
    ||| canonical_va(top) > u64::MAX - PAGE_SIZE
    ||| canonical_va((top - USER_STACK_SIZE) as u64) / PAGE_SIZE > (canonical_va(top) + PAGE_SIZE - 1) / (PAGE_SIZE as int)
}

/// Whether a segment to load of the program `phs` maps a page that the layout or an earlier
/// segment maps already.
pub open spec fn program_clash(phs: Seq<ProgramHeaderInfo>, layout: UserLayout) -> bool {
    exists|k: int, v: int|
        0 <= k < phs.len() && #[trigger] in_pages(header_pages(phs[k], 0), v) && (fixed_page(layout, v) || taken_by(
            phs,
            0,
            k,
            v,
        ))
}

/// Whether page `v` is in the range `r`.
pub open spec fn in_pages(r: (int, int), v: int) -> bool {
    r.0 <= v < r.1
}

/// Whether a segment to load of the interpreter `iphs` (loaded `LINK_BASE` bytes up) maps a
/// page that the layout, the program `phs` or an earlier segment of the interpreter maps
/// already.
pub open spec fn interp_clash(phs: Seq<ProgramHeaderInfo>, iphs: Seq<ProgramHeaderInfo>, layout: UserLayout) -> bool {
    exists|k: int, v: int|
        0 <= k < iphs.len() && #[trigger] in_pages(header_pages(iphs[k], LINK_BASE), v) && (fixed_page(layout, v)
            || taken_by(phs, 0, phs.len() as int, v) || taken_by(iphs, LINK_BASE, k, v))
}

/// The frames that building the address space takes: the root of the page table, the trap
/// context, the segments of the program and, for a program that names an interpreter, of
/// the interpreter given.
pub open spec fn frames_needed(
    phs: Seq<ProgramHeaderInfo>,
    interp: Option<(u64, ElfHeader, Seq<ProgramHeaderInfo>)>,
    layout: UserLayout,
) -> int {
    1 + page_count(trap_range(layout)) + frames_for(phs, 0, phs.len() as int) + match interp {
        Some(it) => if is_dynamic(phs) {
            frames_for(it.2, LINK_BASE, it.2.len() as int)
        } else {
            0
        },
        None => 0,
    }
}

/// Whether building the address space of the program with header `h` and program headers
/// `phs` (with the interpreter `interp`) in `layout`, from allocator `a`, meets a fatal
/// error: frames are short, the layout fails, a header cannot be loaded or maps a page
/// mapped already, the program has no segment to load, names an interpreter and none is
/// given, or puts its program headers, its end or its heap out of range; or a count
/// reaches the machine's limit.
pub open spec fn space_fails(
    h: ElfHeader,
    phs: Seq<ProgramHeaderInfo>,
    interp: Option<(u64, ElfHeader, Seq<ProgramHeaderInfo>)>,
    layout: UserLayout,
    a: FrameAllocatorModel,
) -> bool {
    let ls = loads(phs);
    let dynamic = is_dynamic(phs);
    let pe = program_end(phs);
    let heap_lo = canonical_va((pe + PAGE_SIZE) as u64);
    let heap_hi = canonical_va((pe + PAGE_SIZE + USER_HEAP_SIZE) as u64);
    ||| free_frames(a) < frames_needed(phs, interp, layout)
    ||| layout_fails(layout)
    ||| phs.len() >= usize::MAX - 1
    ||| (exists|k: int| 0 <= k < phs.len() && header_bad(#[trigger] phs[k], 0))
    ||| program_clash(phs, layout)
    ||| dynamic && interp is None
    ||| dynamic && (interp matches Some(it) && {
        ||| 1 + ls.len() >= usize::MAX - it.2.len()
        ||| (exists|k: int| 0 <= k < it.2.len() && header_bad(#[trigger] it.2[k], LINK_BASE))
        ||| interp_clash(phs, it.2, layout)
        ||| it.1.entry_point > u64::MAX - LINK_BASE
    })
    ||| ls.len() == 0
    ||| canonical_va(ls[0].virtual_addr) > u64::MAX - h.ph_offset
    ||| ls.last().virtual_addr > u64::MAX - ls.last().mem_size
    ||| pe > u64::MAX - PAGE_SIZE - USER_HEAP_SIZE
    ||| heap_hi > u64::MAX - PAGE_SIZE
    ||| heap_lo / PAGE_SIZE > (heap_hi + PAGE_SIZE - 1) / (PAGE_SIZE as int)
}

/// A header that stops the loading cannot be loaded, or maps a page mapped already, or
/// needs more frames than are left.
proof fn lemma_header_fails(ms: MemorySet, a: FrameAllocatorModel, p: ProgramHeaderInfo, shift: u64)
    requires
        header_fails(ms, a, p, shift),
    ensures
        header_bad(p, shift) || (exists|v: u64|
            header_pages(p, shift).0 <= v < header_pages(p, shift).1 && #[trigger] ms.page_table.is_mapped(v))
            || free_frames(a) < page_count(header_pages(p, shift)),
{
}

/// Builds the address space of a program of `file` from its header `h` and its program
/// headers `phs`, and from its interpreter's (file, header, program headers) when it names
/// one: maps the trampolines and the trap context, then every segment to load of the
/// program, then of the interpreter (`LINK_BASE` bytes up), and sets the stack under
/// `user_stack_base` and the heap from one page past the end of the program's last segment
/// (both mapped on first touch). Copying the segments' bytes in is left to the caller. `None`
/// on a fatal error: the program has no segment to load, a program header has a
/// kind the parser does not know, the program names an interpreter and none is given, a
/// segment or the layout does not fit, a page is mapped twice, frames are short.
pub fn build_elf_space(
    file: u64,
    h: ElfHeader,
    phs: &Vec<ProgramHeaderInfo>,
    interp: Option<(u64, ElfHeader, &Vec<ProgramHeaderInfo>)>,
    layout: UserLayout,
    allocator: &mut StackFrameAllocator,
) -> (r: Option<LoadedELF>)
    requires
        old(allocator)@.wf(),
    ensures
        final(allocator)@.wf(),
        r matches Some(l) ==> elf_space_built(
            file,
            h,
            phs@,
            match interp {
                Some((f, ih, ip)) => Some((f, ih, ip@)),
                None => None,
            },
            layout,
            l,
        ),
        r is None ==> space_fails(
            h,
            phs@,
            match interp {
                Some((f, ih, ip)) => Some((f, ih, ip@)),
                None => None,
            },
            layout,
            old(allocator)@,
        ),
{
    let ghost ip: Option<(u64, ElfHeader, Seq<ProgramHeaderInfo>)> = match interp {
        Some((f, ih, iph)) => Some((f, ih, iph@)),
        None => None,
    };
    let ghost a0 = allocator@;
    let ghost t = trap_range(layout);
    proof {
        lemma_frames_for_grows(phs@, 0, 0, phs@.len() as int);
        if let Some(it) = ip {
            lemma_frames_for_grows(it.2, LINK_BASE, 0, it.2.len() as int);
        }
        assert(frames_needed(phs@, ip, layout) >= 1 + page_count(t) + frames_for(phs@, 0, phs@.len() as int));
    }
    if allocator.free_count() < 1 {
        proof {
            assert(space_fails(h, phs@, ip, layout, a0));
        }
        return None;
    }
    let mut ms = MemorySet::new_bare(allocator);
    proof {
        assert(free_frames(allocator@) == free_frames(a0) - 1);
        assert forall|v: u64| !#[trigger] ms.page_table.is_mapped(v) by {}
    }
    if (layout.strampoline % 0x100_0000_0000_0000) % PAGE_SIZE != 0 {
        proof {
            assert(layout_fails(layout));
        }
        return None;
    }
    let ghost e1 = ms.entries();
    ms.map_trampoline(layout.strampoline);
    proof {
        assert forall|v: u64| #[trigger] ms.page_table.is_mapped(v) implies v == TRAMPOLINE / PAGE_SIZE by {
            assert(ms.entries().contains_key(v));
            if v != TRAMPOLINE / PAGE_SIZE {
                assert(e1.contains_key(v));
            }
        }
    }
    let sig = VirtAddr::from_u64(layout.signal_trampoline).0;
    if sig % PAGE_SIZE != 0 || (layout.user_sigreturn % 0x100_0000_0000_0000) % PAGE_SIZE != 0 {
        proof {
            assert(layout_fails(layout));
        }
        return None;
    }
    if !ms.pages_unmapped(sig / PAGE_SIZE, sig / PAGE_SIZE + 1) {
        proof {
            let v = choose|v: u64| sig / PAGE_SIZE <= v < sig / PAGE_SIZE + 1 && #[trigger] ms.page_table.is_mapped(v);
            assert(v == TRAMPOLINE / PAGE_SIZE);
            assert(layout_fails(layout));
        }
        return None;
    }
    let ghost e2 = ms.entries();
    ms.map_signal_trampoline(layout.signal_trampoline, layout.user_sigreturn);
    proof {
        assert forall|v: u64| #[trigger] ms.page_table.is_mapped(v) implies v == TRAMPOLINE / PAGE_SIZE || v == sig
            / PAGE_SIZE by {
            assert(ms.entries().contains_key(v));
            if v != sig / PAGE_SIZE {
                assert(e2.contains_key(v) && e2[v] == ms.entries()[v]);
                assert(ms.page_table.is_mapped(v) == e2.contains_key(v) && pte_valid(e2[v]));
            }
        }
    }
    let base = VirtAddr::from_u64(layout.trap_context_base).0;
    if sig > u64::MAX - PAGE_SIZE {
        proof {
            assert(layout_fails(layout));
        }
        return None;
    }
    let lo = base / PAGE_SIZE;
    let hi = (sig + PAGE_SIZE - 1) / PAGE_SIZE;
    proof {
        assert(hi == sig / PAGE_SIZE);
        assert(lo == t.0 && hi == t.1);
    }
    if lo > hi {
        proof {
            assert(layout_fails(layout));
        }
        return None;
    }
    if !ms.pages_unmapped(lo, hi) {
        proof {
            let v = choose|v: u64| lo <= v < hi && #[trigger] ms.page_table.is_mapped(v);
            assert(v == TRAMPOLINE / PAGE_SIZE);
            assert(layout_fails(layout));
        }
        return None;
    }
    if allocator.free_count() < (hi - lo) as u128 {
        proof {
            assert(space_fails(h, phs@, ip, layout, a0));
        }
        return None;
    }
    let ghost ms3 = ms;
    let ghost a3 = allocator@;
    ms.map_trap_context(layout.trap_context_base, layout.signal_trampoline, allocator);
    proof {
        let ta = choose|ta: VmArea|
            fresh(
                ta,
                canonical_va(layout.trap_context_base),
                canonical_va(layout.signal_trampoline),
                MapType::Framed,
                VmAreaType::TrapContext,
                MapPermission { bits: KERNEL_RW },
                None,
                0,
            ) && inflated(ta, ms.vm_areas@.last(), ms3.entries(), ms.entries(), a3, allocator@);
        assert(free_frames(allocator@) == free_frames(a0) - 1 - page_count(t));
        assert forall|v: u64| #[trigger] ms.page_table.is_mapped(v) implies fixed_page(layout, v as int) by {
            if !ta.holds(v) {
                assert(ms3.page_table.is_mapped(v));
            }
        }
    }
    let ghost trap_area = ms.vm_areas@[0];
    assert(ms.vm_areas@.len() == 1);
    let mut segs: Vec<SegmentData> = Vec::new();
    if phs.len() >= usize::MAX - 1 {
        proof {
            assert(space_fails(h, phs@, ip, layout, a0));
        }
        return None;
    }
    let ghost ms4 = ms;
    let ghost a4 = allocator@;
    if !load_segments(&mut ms, allocator, file, phs, 0, false, &mut segs) {
        proof {
            let k = choose|k: int|
                0 <= k < phs@.len() && (forall|j: int| 0 <= j < k ==> (#[trigger] phs@[j]).seg_type != SegmentType::Invalid)
                    && segments_loaded(ms.vm_areas@, segs@, 1, 0, loads(phs@.take(k)), file, 0, false)
                    && header_fails(ms, allocator@, phs@[k], 0) && free_frames(allocator@) == free_frames(a4)
                    - frames_for(phs@, 0, k) && (forall|v: u64|
                    #[trigger] ms.page_table.is_mapped(v) ==> ms4.page_table.is_mapped(v) || taken_by(phs@, 0, k, v as int));
            lemma_header_fails(ms, allocator@, phs@[k], 0);
            lemma_frames_for_grows(phs@, 0, k + 1, phs@.len() as int);
            if header_bad(phs@[k], 0) {
            } else if exists|v: u64|
                header_pages(phs@[k], 0).0 <= v < header_pages(phs@[k], 0).1 && #[trigger] ms.page_table.is_mapped(v) {
                let v = choose|v: u64|
                    header_pages(phs@[k], 0).0 <= v < header_pages(phs@[k], 0).1 && #[trigger] ms.page_table.is_mapped(v);
                assert(in_pages(header_pages(phs@[k], 0), v as int));
                assert(program_clash(phs@, layout));
            } else {
                assert(free_frames(a0) < frames_needed(phs@, ip, layout));
            }
            assert(space_fails(h, phs@, ip, layout, a0));
        }
        return None;
    }
    proof {
        assert(free_frames(allocator@) == free_frames(a0) - 1 - page_count(t) - frames_for(phs@, 0, phs@.len() as int));
    }
    let ghost main_areas = ms.vm_areas@;
    let ghost main_segs = segs@;
    let (first, last, dynamic) = scan_program(phs);
    let at_base: u64;
    let entry: u64;
    if dynamic {
        match interp {
            None => {
                proof {
                    assert(space_fails(h, phs@, ip, layout, a0));
                }
                return None;
            },
            Some((ifile, ih, iphs)) => {
                proof {
                    assert(ip == Some((ifile, ih, iphs@)));
                    lemma_frames_for_grows(iphs@, LINK_BASE, 0, iphs@.len() as int);
                }
                if ms.vm_areas.len() >= usize::MAX - iphs.len() {
                proof {
                    assert(space_fails(h, phs@, ip, layout, a0));
                }
                    return None;
                }
                let ghost ms5 = ms;
                let ghost a5 = allocator@;
                let ghost ms5_segs = segs@;
                if !load_segments(&mut ms, allocator, ifile, iphs, LINK_BASE, true, &mut segs) {
                    proof {
                        let n0: int = ms5.vm_areas@.len() as int;
                        let s0: int = ms5_segs.len() as int;
                        let k = choose|k: int|
                            0 <= k < iphs@.len() && (forall|j: int|
                                0 <= j < k ==> (#[trigger] iphs@[j]).seg_type != SegmentType::Invalid) && segments_loaded(
                                ms.vm_areas@,
                                segs@,
                                n0,
                                s0,
                                loads(iphs@.take(k)),
                                ifile,
                                LINK_BASE,
                                true,
                            ) && header_fails(ms, allocator@, iphs@[k], LINK_BASE) && free_frames(allocator@)
                                == free_frames(a5) - frames_for(iphs@, LINK_BASE, k) && (forall|v: u64|
                                #[trigger] ms.page_table.is_mapped(v) ==> ms5.page_table.is_mapped(v) || taken_by(
                                    iphs@,
                                    LINK_BASE,
                                    k,
                                    v as int,
                                ));
                        lemma_header_fails(ms, allocator@, iphs@[k], LINK_BASE);
                        lemma_frames_for_grows(iphs@, LINK_BASE, k + 1, iphs@.len() as int);
                        if header_bad(iphs@[k], LINK_BASE) {
                        } else if exists|v: u64|
                            header_pages(iphs@[k], LINK_BASE).0 <= v < header_pages(iphs@[k], LINK_BASE).1
                                && #[trigger] ms.page_table.is_mapped(v) {
                            let v = choose|v: u64|
                                header_pages(iphs@[k], LINK_BASE).0 <= v < header_pages(iphs@[k], LINK_BASE).1
                                    && #[trigger] ms.page_table.is_mapped(v);
                            assert(in_pages(header_pages(iphs@[k], LINK_BASE), v as int));
                            assert(interp_clash(phs@, iphs@, layout));
                        } else {
                            assert(free_frames(a0) < frames_needed(phs@, ip, layout));
                        }
                        assert(space_fails(h, phs@, ip, layout, a0));
                    }
                    return None;
                }
                if ih.entry_point > u64::MAX - LINK_BASE {
                proof {
                    assert(space_fails(h, phs@, ip, layout, a0));
                }
                    return None;
                }
                entry = LINK_BASE + ih.entry_point;
                at_base = LINK_BASE;
            },
        }
    } else {
        entry = h.entry_point;
        at_base = 0;
    }
    let top = layout.user_stack_base;
    if top < USER_STACK_SIZE {
        proof {
            assert(layout_fails(layout));
        }
        return None;
    }
    let bottom = top - USER_STACK_SIZE;
    let head = match first {
        None => {
            proof {
                assert(space_fails(h, phs@, ip, layout, a0));
            }
            return None;
        },
        Some(f) => VirtAddr::from_u64(phs[f].virtual_addr).0,
    };
    if head > u64::MAX - h.ph_offset {
        proof {
            assert(space_fails(h, phs@, ip, layout, a0));
        }
        return None;
    }
    let phdr = head + h.ph_offset;
    let mut auxs: Vec<AuxEntry> = Vec::new();
    auxs.push(AuxEntry(AT_BASE, at_base));
    auxs.push(AuxEntry(0x21, 0));
    auxs.push(AuxEntry(0x28, 0));
    auxs.push(AuxEntry(0x29, 0));
    auxs.push(AuxEntry(0x2a, 0));
    auxs.push(AuxEntry(0x2b, 0));
    auxs.push(AuxEntry(0x2c, 0));
    auxs.push(AuxEntry(0x2d, 0));
    auxs.push(AuxEntry(AT_HWCAP, 0));
    auxs.push(AuxEntry(AT_PAGESZ, PAGE_SIZE));
    auxs.push(AuxEntry(AT_CLKTCK, CLOCK_FREQ));
    auxs.push(AuxEntry(AT_PHDR, phdr));
    auxs.push(AuxEntry(AT_PHENT, h.ph_entry_size as u64));
    auxs.push(AuxEntry(AT_PHNUM, h.ph_count as u64));
    auxs.push(AuxEntry(AT_FLAGS, 0));
    auxs.push(AuxEntry(AT_ENTRY, h.entry_point));
    auxs.push(AuxEntry(AT_UID, 0));
    auxs.push(AuxEntry(AT_EUID, 0));
    auxs.push(AuxEntry(AT_GID, 0));
    auxs.push(AuxEntry(AT_EGID, 0));
    auxs.push(AuxEntry(AT_SECURE, 0));
    auxs.push(AuxEntry(AT_RANDOM, top - 16));
    let stack_lo = VirtAddr::from_u64(bottom);
    let stack_hi = VirtAddr::from_u64(top);
    if stack_hi.0 > u64::MAX - PAGE_SIZE || stack_lo.0 / PAGE_SIZE > (stack_hi.0 + PAGE_SIZE - 1) / PAGE_SIZE {
        proof {
            assert(layout_fails(layout));
        }
        return None;
    }
    ms.user_stack_start = bottom;
    ms.user_stack_end = top;
    ms.user_stack_areas = VmArea::new(
        stack_lo,
        stack_hi,
        MapType::Framed,
        VmAreaType::UserStack,
        MapPermission { bits: USER_RW },
        None,
        0,
    );
    let l = match last {
        None => {
            proof {
                assert(space_fails(h, phs@, ip, layout, a0));
            }
            return None;
        },
        Some(l) => l,
    };
    let lp = phs[l];
    if lp.virtual_addr > u64::MAX - lp.mem_size {
        proof {
            assert(space_fails(h, phs@, ip, layout, a0));
        }
        return None;
    }
    let program_end = VirtAddr::from_u64(lp.virtual_addr + lp.mem_size).0;
    if program_end > u64::MAX - PAGE_SIZE - USER_HEAP_SIZE {
        proof {
            assert(space_fails(h, phs@, ip, layout, a0));
        }
        return None;
    }
    let heap_bottom = program_end + PAGE_SIZE;
    let heap_top = heap_bottom + USER_HEAP_SIZE;
    let heap_lo = VirtAddr::from_u64(heap_bottom);
    let heap_hi = VirtAddr::from_u64(heap_top);
    if heap_hi.0 > u64::MAX - PAGE_SIZE || heap_lo.0 / PAGE_SIZE > (heap_hi.0 + PAGE_SIZE - 1) / PAGE_SIZE {
        proof {
            assert(space_fails(h, phs@, ip, layout, a0));
        }
        return None;
    }
    ms.heap_areas = VmArea::new(
        heap_lo,
        heap_hi,
        MapType::Framed,
        VmAreaType::UserHeap,
        MapPermission { bits: USER_RW },
        Some(file),
        (heap_bottom % PAGE_SIZE) as usize,
    );
    ms.brk = heap_bottom;
    ms.brk_start = heap_bottom;
    proof {
        crate::memory_set::lemma_flag_consts();
        assert(auxs@ =~= auxv(h, phdr, at_base, top));
        if dynamic {
            assert(ms.vm_areas@.subrange(0, 1 + loads(phs@).len() as int) =~= main_areas);
            assert(segs@.subrange(0, loads(phs@).len() as int) =~= main_segs);
        }
    }
    Some(LoadedELF { memory_set: ms, user_stack_top: top, elf_entry: entry, auxs, segments: segs })
}

/// Whether `phs` are the program headers that the parser reads from the ELF file `data`.
pub open spec fn headers_read(data: Seq<u8>, phs: Seq<ProgramHeaderInfo>) -> bool {
    &&& elf_header_of(data) is Some
    &&& phs.len() == elf_header_of(data)->0.ph_count
    &&& forall|i: int| 0 <= i < phs.len() ==> program_header_of(data, i as u16) == Some(#[trigger] phs[i])
}


/// Whether the headers of the ELF file `data` cannot be read: the parser refuses its header,
/// or one of its program headers does not lie inside `data` or is refused (see `read_elf`).
pub open spec fn elf_unreadable(data: Seq<u8>) -> bool {
    elf_header_of(data) is None || exists|i: u16|
        #![trigger program_header_of(data, i)]
        i < elf_header_of(data)->0.ph_count && {
            ||| !program_header_fits(elf_header_of(data)->0, i, data.len())
            ||| program_header_of(data, i) is None
        }
}

/// Whether `ip` is what the interpreter `interp` (its file and bytes) reads as: its file,
/// header and program headers, or nothing when none is given or its headers cannot be read.
pub open spec fn interp_read(
    interp: Option<(u64, Seq<u8>)>,
    ip: Option<(u64, ElfHeader, Seq<ProgramHeaderInfo>)>,
) -> bool {
    match interp {
        None => ip is None,
        Some(y) => match ip {
            Some(x) => x.0 == y.0 && elf_header_of(y.1) == Some(x.1) && headers_read(y.1, x.2),
            None => elf_unreadable(y.1),
        },
    }
}

/// Whether loading the program `data` (with the interpreter `interp`) in `layout` from
/// allocator `a` fails: its headers cannot be read, or the address space of what they read
/// as cannot be built (see [`space_fails`]).
pub open spec fn load_fails(
    data: Seq<u8>,
    interp: Option<(u64, Seq<u8>)>,
    layout: UserLayout,
    a: FrameAllocatorModel,
) -> bool {
    ||| elf_unreadable(data)
    ||| exists|phs: Seq<ProgramHeaderInfo>, ip: Option<(u64, ElfHeader, Seq<ProgramHeaderInfo>)>|
        headers_read(data, phs) && interp_read(interp, ip) && space_fails(elf_header_of(data)->0, phs, ip, layout, a)
}

/// The bytes of the interpreter, if any, with its file.
pub open spec fn interp_view(interp: Option<(u64, &[u8])>) -> Option<(u64, Seq<u8>)> {
    match interp {
        Some((f, d)) => Some((f, d@)),
        None => None,
    }
}

/// `l` is the address space built from the program `data` of file `file` (and from the
/// interpreter `interp`, when it is given and reads as one): their headers read as
/// `phs` and `ip`, and `l` is what [`elf_space_built`] says of them.
pub open spec fn elf_loaded(file: u64, data: Seq<u8>, interp: Option<(u64, Seq<u8>)>, layout: UserLayout, l: LoadedELF) -> bool {
    exists|phs: Seq<ProgramHeaderInfo>, ip: Option<(u64, ElfHeader, Seq<ProgramHeaderInfo>)>|
        {
            &&& headers_read(data, phs)
            &&& ip matches Some(x) ==> interp matches Some(y) && x.0 == y.0 && elf_header_of(y.1) == Some(x.1)
                && headers_read(y.1, x.2)
            &&& elf_space_built(file, elf_header_of(data)->0, phs, ip, layout, l)
        }
}

/// Loads the program of `file`, whose bytes from its start to the end of its program
/// header table are `data`, with its interpreter (its file and the same bytes of it) when
/// one is given: reads the headers with the parser (see `read_elf`) and builds the address
/// space (see `build_elf_space`); an interpreter whose headers cannot be read counts as not
/// given. `None` when the program's headers cannot be read or the space cannot be built.
pub fn load_elf(
    file: u64,
    data: &[u8],
    interp: Option<(u64, &[u8])>,
    layout: UserLayout,
    allocator: &mut StackFrameAllocator,
) -> (r: Option<LoadedELF>)
    requires
        old(allocator)@.wf(),
    ensures
        final(allocator)@.wf(),
        r matches Some(l) ==> elf_loaded(file, data@, interp_view(interp), layout, l),
        elf_header_of(data@) is None ==> r is None,
        r is None ==> load_fails(data@, interp_view(interp), layout, old(allocator)@),
{
    let (h, phs) = match read_elf(data) {
        Some(x) => x,
        None => {
            proof {
                assert(elf_unreadable(data@));
            }
            return None;
        },
    };
    let parsed = match interp {
        None => None,
        Some((ifile, idata)) => match read_elf(idata) {
            Some((ih, iphs)) => Some((ifile, ih, iphs)),
            None => None,
        },
    };
    let r = match &parsed {
        None => build_elf_space(file, h, &phs, None, layout, allocator),
        Some((ifile, ih, iphs)) => build_elf_space(file, h, &phs, Some((*ifile, *ih, iphs)), layout, allocator),
    };
    proof {
        let ipv = match &parsed {
            Some((f, ih, ip)) => Some((*f, *ih, ip@)),
            None => None,
        };
        assert(headers_read(data@, phs@));
        assert(interp_read(interp_view(interp), ipv));
        if r is None {
            assert(space_fails(h, phs@, ipv, layout, old(allocator)@));
            assert(load_fails(data@, interp_view(interp), layout, old(allocator)@));
        }
        if r is Some {
            let ip = match parsed {
                Some((f, ih, ip)) => Some((f, ih, ip@)),
                None => None,
            };
            assert(headers_read(data@, phs@));
            match (interp, ip) {
                (Some(y), Some(x)) => {
                    assert(headers_read(y.1@, x.2));
                },
                _ => {},
            }
        }
    }
    r
}

} // verus!
