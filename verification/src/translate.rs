//! Where a user buffer lies in physical memory, through the page table of its address
//! space.
use vstd::prelude::*;
use crate::address::{canonical_va, PhysAddr, VirtAddr, VirtPageNum, PAGE_SIZE, PPN_MASK};
use crate::page_table::{pte_ppn, PageTable};

verus! {

/// A piece of a user buffer in physical memory: bytes `[start, end)` of frame `ppn`.
#[derive(Copy, Clone, PartialEq, Eq, Debug, Structural)]
pub struct PhysSlice {
    pub ppn: u64,
    pub start: u64,
    pub end: u64,
}

/// The first address of the page after the one that holds `s`.
pub open spec fn next_page(s: int) -> int {
    (s / 4096 + 1) * 4096
}

/// The pieces, page by page, of the bytes `[s, e)` of an address space whose entries are
/// `pt`; `None` when a page of them has no entry.
pub open spec fn pieces_from(pt: Map<u64, u64>, s: int, e: int) -> Option<Seq<PhysSlice>>
    decreases e - s,
{
    if s >= e || s < 0 {
        Some(Seq::empty())
    } else {
        let vpn = s / 4096;
        let b = if next_page(s) < e {
            next_page(s)
        } else {
            e
        };
        if !pt.contains_key(vpn as u64) {
            None
        } else {
            let piece = PhysSlice {
                ppn: pte_ppn(pt[vpn as u64]),
                start: (s % 4096) as u64,
                end: (if b % 4096 == 0 {
                    4096
                } else {
                    b % 4096
                }) as u64,
            };
            if b > s {
                match pieces_from(pt, b, e) {
                    Some(rest) => Some(seq![piece] + rest),
                    None => None,
                }
            } else {
                None
            }
        }
    }
}

/// The pieces `a` put before what `o` holds, or `None`.
pub open spec fn prepend(a: Seq<PhysSlice>, o: Option<Seq<PhysSlice>>) -> Option<Seq<PhysSlice>> {
    match o {
        Some(r) => Some(a + r),
        None => None,
    }
}

/// The page after the one of `s` starts above `s`.
proof fn lemma_next_page(s: int)
    requires
        s >= 0,
    ensures
        s < next_page(s) <= s + 4096,
        next_page(s) % 4096 == 0,
        next_page(s) / 4096 == s / 4096 + 1,
{
    assert(s < (s / 4096 + 1) * 4096 <= s + 4096) by (nonlinear_arith);
    assert(((s / 4096 + 1) * 4096) % 4096 == 0) by (nonlinear_arith);
    assert(((s / 4096 + 1) * 4096) / 4096 == s / 4096 + 1) by (nonlinear_arith);
}

/// The physical pieces of the `len` bytes of user memory at `ptr` (taken as a canonical
/// address, as is its end), page by page, through `page_table`: each piece is the part of
/// one page that the bytes cover, in the frame that the page's entry names. `None` when a
/// page has no entry: the caller then maps it lazily and looks again, or panics.
pub fn translated_bytes_buffer(page_table: &PageTable, ptr: u64, len: u64) -> (r: Option<Vec<PhysSlice>>)
    requires
        canonical_va(ptr) + len <= u64::MAX,
    ensures
        r is None ==> pieces_from(
            page_table.entries(),
            canonical_va(ptr) as int,
            canonical_va((canonical_va(ptr) + len) as u64) as int,
        ) is None,
        r matches Some(v) ==> pieces_from(
            page_table.entries(),
            canonical_va(ptr) as int,
            canonical_va((canonical_va(ptr) + len) as u64) as int,
        ) == Some(v@),
{
    let start = VirtAddr::from_u64(ptr).0;
    let end = VirtAddr::from_u64(start + len).0;
    let ghost pt = page_table.entries();
    let mut cur = start;
    let mut v: Vec<PhysSlice> = Vec::new();
    while cur < end
        invariant
            pt == page_table.entries(),
            start == canonical_va(ptr),
            end == canonical_va((canonical_va(ptr) + len) as u64),
            start <= cur,
            cur <= end || cur == start,
            pieces_from(pt, start as int, end as int) == prepend(v@, pieces_from(pt, cur as int, end as int)),
        decreases end - cur,
    {
        proof {
            lemma_next_page(cur as int);
        }
        let vpn = cur / PAGE_SIZE;
        let ppn = match page_table.translate(VirtPageNum(vpn)) {
            Some(e) => e.ppn().0,
            None => {
                proof {
                    assert(pieces_from(pt, cur as int, end as int) is None);
                    assert(pieces_from(pt, start as int, end as int) is None);
                }
                return None;
            },
        };
        let boundary: u64 = if vpn < u64::MAX / PAGE_SIZE {
            let n = (vpn + 1) * PAGE_SIZE;
            if n < end {
                n
            } else {
                end
            }
        } else {
            end
        };
        proof {
            if vpn >= u64::MAX / PAGE_SIZE {
                assert(next_page(cur as int) >= end);
            }
        }
        let piece = PhysSlice {
            ppn,
            start: cur % PAGE_SIZE,
            end: if boundary % PAGE_SIZE == 0 {
                PAGE_SIZE
            } else {
                boundary % PAGE_SIZE
            },
        };
        let ghost v0 = v@;
        v.push(piece);
        proof {
            assert(v@ == v0 + seq![piece]);
            let rest = pieces_from(pt, boundary as int, end as int);
            assert(pieces_from(pt, cur as int, end as int) == prepend(seq![piece], rest));
            match rest {
                Some(q) => {
                    assert(v0 + (seq![piece] + q) =~= v@ + q);
                },
                None => {},
            }
        }
        cur = boundary;
    }
    proof {
        assert(v@ + Seq::<PhysSlice>::empty() =~= v@);
    }
    Some(v)
}

/// The physical address of the `size` bytes of user memory at `ptr` (a canonical address),
/// which lie in one page. It is a fatal error when they cross a page, and when the page
/// has no entry.
pub fn translated_ref(page_table: &PageTable, ptr: u64, size: u64) -> (r: PhysAddr)
    requires
        ptr % PAGE_SIZE + size <= PAGE_SIZE,
        page_table.entries().contains_key(canonical_va(ptr) / PAGE_SIZE),
    ensures
        r.0 == pte_ppn(page_table.entries()[canonical_va(ptr) / PAGE_SIZE]) * PAGE_SIZE + canonical_va(ptr)
            % PAGE_SIZE,
{
    let va = VirtAddr::from_u64(ptr);
    let e = page_table.translate(va.floor()).unwrap();
    let ppn = e.ppn().0;
    proof {
        assert(ppn * 4096 <= 0xfff_ffff_ffff * 4096) by (nonlinear_arith)
            requires
                ppn <= 0xfff_ffff_ffff,
        ;
    }
    PhysAddr(ppn * PAGE_SIZE + va.page_offset())
}

/// The physical address of the `size` bytes of user memory at `ptr`, to be written, as
/// [`translated_ref`] finds it.
pub fn translated_mut(page_table: &PageTable, ptr: u64, size: u64) -> (r: PhysAddr)
    requires
        ptr % PAGE_SIZE + size <= PAGE_SIZE,
        page_table.entries().contains_key(canonical_va(ptr) / PAGE_SIZE),
    ensures
        r.0 == pte_ppn(page_table.entries()[canonical_va(ptr) / PAGE_SIZE]) * PAGE_SIZE + canonical_va(ptr)
            % PAGE_SIZE,
{
    translated_ref(page_table, ptr, size)
}

/// The byte of user memory at `va` (taken as a canonical address), read from physical
/// memory `mem` through the entries `pt`; `None` when its page has no entry or its frame
/// lies beyond `mem`.
pub open spec fn user_byte(pt: Map<u64, u64>, mem: Seq<u8>, va: u64) -> Option<u8> {
    let a = canonical_va(va);
    let vpn = a / 4096;
    if pt.contains_key(vpn) && pte_ppn(pt[vpn]) * 4096 + a % 4096 < mem.len() {
        Some(mem[pte_ppn(pt[vpn]) * 4096 + a % 4096])
    } else {
        None
    }
}

/// The bytes at `ptr` form a string of `n` bytes ended by a zero byte: the `n` bytes are
/// readable and not zero, and the byte after them is zero.
pub open spec fn c_string_at(pt: Map<u64, u64>, mem: Seq<u8>, ptr: u64, n: nat) -> bool {
    &&& ptr + n <= u64::MAX
    &&& user_byte(pt, mem, (ptr + n) as u64) == Some(0u8)
    &&& forall|k: int| 0 <= k < n ==> #[trigger] user_byte(pt, mem, (ptr + k) as u64) is Some
        && user_byte(pt, mem, (ptr + k) as u64)->0 != 0
}

/// The zero-ended string of user memory at `ptr`, read byte by byte from physical memory
/// `mem` through `page_table`, without its ending zero. It is a fatal error when a byte
/// before the ending zero cannot be read.
pub fn translated_str(page_table: &PageTable, mem: &[u8], ptr: u64) -> (r: Vec<u8>)
    requires
        exists|n: nat| c_string_at(page_table.entries(), mem@, ptr, n),
    ensures
        c_string_at(page_table.entries(), mem@, ptr, r@.len()),
        forall|k: int| 0 <= k < r@.len() ==> user_byte(page_table.entries(), mem@, (ptr + k) as u64) == Some(
            #[trigger] r@[k],
        ),
{
    let ghost pt = page_table.entries();
    let ghost n: nat = choose|n: nat| c_string_at(pt, mem@, ptr, n);
    let mut string: Vec<u8> = Vec::new();
    let mut k: u64 = 0;
    loop
        invariant
            pt == page_table.entries(),
            c_string_at(pt, mem@, ptr, n),
            k == string@.len(),
            k <= n,
            forall|j: int| 0 <= j < k ==> user_byte(pt, mem@, (ptr + j) as u64) == Some(#[trigger] string@[j]),
        ensures
            k == n,
            k == string@.len(),
            forall|j: int| 0 <= j < k ==> user_byte(pt, mem@, (ptr + j) as u64) == Some(#[trigger] string@[j]),
        decreases n - k,
    {
        let va = ptr + k;
        proof {
            if k < n {
                assert(user_byte(pt, mem@, (ptr + k) as u64) is Some);
            }
        }
        let pa = translated_ref(page_table, va, 1);
        let ch = mem[pa.0 as usize];
        if ch == 0 {
            proof {
                if k < n {
                    assert(user_byte(pt, mem@, (ptr + k) as u64)->0 != 0);
                }
            }
            break;
        }
        proof {
            assert(k != n);
        }
        string.push(ch);
        k = k + 1;
    }
    string
}

} // verus!
