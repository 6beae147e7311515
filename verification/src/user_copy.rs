//! Copying bytes between the kernel and user memory, through the page table: `copyout`
//! writes the bytes of a value at a user address, `copyin` reads them back. Physical
//! memory is a byte array indexed by physical address.
use vstd::prelude::*;
use crate::address::canonical_va;
use crate::page_table::PageTable;
use crate::translate::{next_page, pieces_from, translated_bytes_buffer, PhysSlice};

verus! {

/// The number of bytes of a piece.
pub open spec fn piece_len(p: PhysSlice) -> int {
    p.end - p.start
}

/// The physical address of the first byte of a piece.
pub open spec fn piece_base(p: PhysSlice) -> int {
    p.ppn * 4096 + p.start
}

/// The bytes that pieces cover, in all.
pub open spec fn total_len(ps: Seq<PhysSlice>) -> int
    decreases ps.len(),
{
    if ps.len() == 0 {
        0
    } else {
        total_len(ps.drop_last()) + piece_len(ps.last())
    }
}

/// Each piece is a range of bytes inside physical memory of `mem_len` bytes.
pub open spec fn pieces_fit(ps: Seq<PhysSlice>, mem_len: int) -> bool {
    forall|i: int|
        0 <= i < ps.len() ==> (#[trigger] ps[i]).start <= ps[i].end && piece_base(ps[i]) + piece_len(ps[i])
            <= mem_len
}

/// No two pieces share a byte of physical memory.
pub open spec fn pieces_disjoint(ps: Seq<PhysSlice>) -> bool {
    forall|i: int, j: int|
        #![trigger ps[i], ps[j]]
        0 <= i < j < ps.len() ==> piece_base(ps[i]) + piece_len(ps[i]) <= piece_base(ps[j]) || piece_base(ps[j])
            + piece_len(ps[j]) <= piece_base(ps[i])
}

/// `mem` with the bytes of piece `p` replaced by `bytes`.
pub open spec fn write_piece(mem: Seq<u8>, p: PhysSlice, bytes: Seq<u8>) -> Seq<u8> {
    Seq::new(
        mem.len(),
        |a: int|
            if piece_base(p) <= a < piece_base(p) + piece_len(p) {
                bytes[a - piece_base(p)]
            } else {
                mem[a]
            },
    )
}

/// Physical memory `mem` after the bytes `src` are written, piece after piece, into the
/// pieces `ps`.
pub open spec fn copied_out(mem: Seq<u8>, ps: Seq<PhysSlice>, src: Seq<u8>) -> Seq<u8>
    decreases ps.len(),
{
    if ps.len() == 0 {
        mem
    } else {
        let ps0 = ps.drop_last();
        write_piece(
            copied_out(mem, ps0, src),
            ps.last(),
            src.subrange(total_len(ps0), total_len(ps0) + piece_len(ps.last())),
        )
    }
}

/// The bytes of physical memory `mem` that the pieces `ps` cover, piece after piece.
pub open spec fn copied_in(mem: Seq<u8>, ps: Seq<PhysSlice>) -> Seq<u8>
    decreases ps.len(),
{
    if ps.len() == 0 {
        Seq::empty()
    } else {
        copied_in(mem, ps.drop_last()) + mem.subrange(piece_base(ps.last()), piece_base(ps.last()) + piece_len(ps.last()))
    }
}

/// The pieces of the bytes `[s, e)` cover them: their lengths add up to `e - s`, and each
/// lies inside one page.
proof fn lemma_pieces_total(pt: Map<u64, u64>, s: int, e: int)
    requires
        0 <= s <= e,
        pieces_from(pt, s, e) is Some,
    ensures
        total_len(pieces_from(pt, s, e)->0) == e - s,
        forall|i: int|
            0 <= i < pieces_from(pt, s, e)->0.len() ==> (#[trigger] pieces_from(pt, s, e)->0[i]).start
                <= pieces_from(pt, s, e)->0[i].end <= 4096,
    decreases e - s,
{
    let ps = pieces_from(pt, s, e)->0;
    if s >= e {
    } else {
        let b = if next_page(s) < e {
            next_page(s)
        } else {
            e
        };
        assert(s < (s / 4096 + 1) * 4096 <= s + 4096) by (nonlinear_arith);
        assert(((s / 4096 + 1) * 4096) % 4096 == 0) by (nonlinear_arith);
        let rest = pieces_from(pt, b, e)->0;
        lemma_pieces_total(pt, b, e);
        let piece = ps[0];
        assert(ps == seq![piece] + rest);
        assert(piece_len(piece) == b - s) by {
            if b == next_page(s) {
                assert(b % 4096 == 0);
                assert(s % 4096 == s - (s / 4096) * 4096);
            } else {
                assert(b == e && e < next_page(s));
                assert(b / 4096 == s / 4096) by (nonlinear_arith)
                    requires
                        s < b < (s / 4096 + 1) * 4096,
                        s >= 0,
                ;
                assert(b % 4096 == b - (b / 4096) * 4096);
                assert(s % 4096 == s - (s / 4096) * 4096);
            }
        }
        lemma_total_prepend(piece, rest);
        assert forall|i: int| 0 <= i < ps.len() implies (#[trigger] ps[i]).start <= ps[i].end <= 4096 by {
            if i > 0 {
                assert(ps[i] == rest[i - 1]);
            }
        }
    }
}

/// The total of a piece put before others.
proof fn lemma_total_prepend(p: PhysSlice, ps: Seq<PhysSlice>)
    ensures
        total_len(seq![p] + ps) == piece_len(p) + total_len(ps),
    decreases ps.len(),
{
    let q = seq![p] + ps;
    if ps.len() == 0 {
        assert(q =~= seq![p]);
        assert(q.drop_last() =~= Seq::<PhysSlice>::empty());
        assert(total_len(q.drop_last()) == 0);
        assert(q.last() == p);
    } else {
        lemma_total_prepend(p, ps.drop_last());
        assert(q.drop_last() =~= seq![p] + ps.drop_last());
        assert(q.last() == ps.last());
    }
}

/// The totals of the first pieces grow with their number.
proof fn lemma_total_take(ps: Seq<PhysSlice>, k: int)
    requires
        0 <= k <= ps.len(),
        forall|i: int| 0 <= i < ps.len() ==> (#[trigger] ps[i]).start <= ps[i].end,
    ensures
        0 <= total_len(ps.take(k)) <= total_len(ps),
    decreases ps.len() - k,
{
    if k == ps.len() {
        assert(ps.take(k) =~= ps);
        lemma_total_nonneg(ps);
    } else {
        lemma_total_take(ps, k + 1);
        assert(ps.take(k + 1).drop_last() =~= ps.take(k));
        assert(ps.take(k + 1).last() == ps[k]);
        assert(ps[k].start <= ps[k].end);
        let t = ps.take(k);
        assert forall|i: int| 0 <= i < t.len() implies (#[trigger] t[i]).start <= t[i].end by {
            assert(t[i] == ps[i]);
        }
        lemma_total_nonneg(t);
    }
}

/// Pieces cover no fewer than 0 bytes.
proof fn lemma_total_nonneg(ps: Seq<PhysSlice>)
    requires
        forall|i: int| 0 <= i < ps.len() ==> (#[trigger] ps[i]).start <= ps[i].end,
    ensures
        total_len(ps) >= 0,
    decreases ps.len(),
{
    if ps.len() > 0 {
        lemma_total_nonneg(ps.drop_last());
        assert(ps.last() == ps[ps.len() - 1]);
    }
}

/// The pieces of a user buffer of `len` bytes at `addr`, when its pages are mapped.
pub open spec fn buffer_pieces(pt: Map<u64, u64>, addr: u64, len: int) -> Option<Seq<PhysSlice>> {
    pieces_from(pt, addr as int, addr + len)
}

/// A user buffer of `len` bytes at `addr` that `copyout` and `copyin` can reach in physical
/// memory of `mem_len` bytes: its addresses are canonical, its pages mapped, and its
/// frames inside memory.
pub open spec fn reachable_buffer(pt: Map<u64, u64>, addr: u64, len: int, mem_len: int) -> bool {
    &&& addr + len <= u64::MAX
    &&& canonical_va(addr) == addr
    &&& canonical_va((addr + len) as u64) == addr + len
    &&& buffer_pieces(pt, addr, len) is Some
    &&& pieces_fit(buffer_pieces(pt, addr, len)->0, mem_len)
}

/// The pieces of a reachable buffer cover it and fit in 64 bits.
proof fn lemma_reachable(pt: Map<u64, u64>, addr: u64, len: int, mem_len: int)
    requires
        reachable_buffer(pt, addr, len, mem_len),
        len >= 0,
    ensures
        total_len(buffer_pieces(pt, addr, len)->0) == len,
        forall|i: int|
            0 <= i < buffer_pieces(pt, addr, len)->0.len() ==> (#[trigger] buffer_pieces(pt, addr, len)->0[i]).start
                <= buffer_pieces(pt, addr, len)->0[i].end,
{
    lemma_pieces_total(pt, addr as int, addr + len);
}

/// Where piece `p` lies in physical memory of `mem_len` bytes: its first address and its
/// length.
fn piece_range(p: PhysSlice, mem_len: usize) -> (r: (usize, usize))
    requires
        p.start <= p.end,
        piece_base(p) + piece_len(p) <= mem_len,
    ensures
        r.0 == piece_base(p),
        r.1 == piece_len(p),
{
    proof {
        assert(p.ppn * 4096 <= mem_len);
    }
    ((p.ppn * 4096 + p.start) as usize, (p.end - p.start) as usize)
}

/// Writes `src[off..off + n]` at physical addresses `base..base + n` of `mem`.
fn write_bytes(mem: &mut Vec<u8>, base: usize, src: &[u8], off: usize, n: usize)
    requires
        base + n <= old(mem)@.len(),
        off + n <= src@.len(),
    ensures
        final(mem)@ == Seq::new(
            old(mem)@.len(),
            |a: int|
                if base <= a < base + n {
                    src@[off + a - base]
                } else {
                    old(mem)@[a]
                },
        ),
{
    let ghost m1 = mem@;
    let mem_len = mem.len();
    let src_len = src.len();
    let mut k: usize = 0;
    while k < n
        invariant
            k <= n,
            base + n <= m1.len(),
            off + n <= src@.len(),
            mem_len == m1.len(),
            src_len == src@.len(),
            mem@ == Seq::new(
                m1.len(),
                |a: int|
                    if base <= a < base + k {
                        src@[off + a - base]
                    } else {
                        m1[a]
                    },
            ),
        decreases n - k,
    {
        mem.set(base + k, src[off + k]);
        proof {
            assert(mem@ =~= Seq::new(
                m1.len(),
                |a: int|
                    if base <= a < base + k + 1 {
                        src@[off + a - base]
                    } else {
                        m1[a]
                    },
            ));
        }
        k = k + 1;
    }
}

/// Appends the bytes at physical addresses `base..base + n` of `mem` to `r`.
fn read_bytes(r: &mut Vec<u8>, mem: &[u8], base: usize, n: usize)
    requires
        base + n <= mem@.len(),
    ensures
        final(r)@ == old(r)@ + mem@.subrange(base as int, base + n),
{
    let ghost r1 = r@;
    let mem_len = mem.len();
    let mut k: usize = 0;
    while k < n
        invariant
            k <= n,
            base + n <= mem@.len(),
            mem_len == mem@.len(),
            r@ == r1 + mem@.subrange(base as int, base + k),
        decreases n - k,
    {
        r.push(mem[base + k]);
        proof {
            assert(r@ =~= r1 + mem@.subrange(base as int, base + k + 1));
        }
        k = k + 1;
    }
}

/// Writes the bytes `src` (those of a value) into the user buffer at `dst` through
/// `page_table`, page by page, in physical memory `mem`. It is a fatal error when `src` is
/// empty and when the buffer cannot be reached.
pub fn copyout(page_table: &PageTable, mem: &mut Vec<u8>, dst: u64, src: &[u8])
    requires
        src@.len() > 0,
        reachable_buffer(page_table.entries(), dst, src@.len() as int, old(mem)@.len() as int),
    ensures
        final(mem)@ == copied_out(old(mem)@, buffer_pieces(page_table.entries(), dst, src@.len() as int)->0, src@),
{
    let ghost pt = page_table.entries();
    let ghost mem0 = mem@;
    let pieces = translated_bytes_buffer(page_table, dst, src.len() as u64).unwrap();
    let ghost ps = pieces@;
    proof {
        lemma_reachable(pt, dst, src@.len() as int, mem0.len() as int);
        assert(ps == buffer_pieces(pt, dst, src@.len() as int)->0);
        assert(ps.take(0) =~= Seq::<PhysSlice>::empty());
    }
    let src_len = src.len();
    let mut off: usize = 0;
    let mut i: usize = 0;
    while i < pieces.len()
        invariant
            src_len == src@.len(),
            ps == pieces@,
            i <= ps.len(),
            pieces_fit(ps, mem0.len() as int),
            forall|j: int| 0 <= j < ps.len() ==> (#[trigger] ps[j]).start <= ps[j].end,
            total_len(ps) == src@.len(),
            off == total_len(ps.take(i as int)),
            mem@.len() == mem0.len(),
            mem@ == copied_out(mem0, ps.take(i as int), src@),
        decreases ps.len() - i,
    {
        let p = pieces[i];
        proof {
            assert(ps.take(i + 1).drop_last() =~= ps.take(i as int));
            assert(ps.take(i + 1).last() == p);
            lemma_total_take(ps, i + 1);
            assert(p == ps[i as int]);
            assert(piece_base(p) + piece_len(p) <= mem0.len());
            assert(p.start <= p.end);
            assert(off + piece_len(p) <= src@.len());
        }
        let (base, n) = piece_range(p, mem.len());
        let ghost m1 = mem@;
        write_bytes(mem, base, src, off, n);
        proof {
            assert(mem@ =~= write_piece(m1, p, src@.subrange(off as int, off + n)));
        }
        off = off + n;
        i = i + 1;
    }
    proof {
        assert(ps.take(ps.len() as int) =~= ps);
    }
}

/// Reads the `len` bytes of the user buffer at `src` through `page_table`, page by page,
/// from physical memory `mem`. It is a fatal error when `len` is 0 and when the buffer
/// cannot be reached.
pub fn copyin(page_table: &PageTable, mem: &[u8], src: u64, len: usize) -> (r: Vec<u8>)
    requires
        len > 0,
        reachable_buffer(page_table.entries(), src, len as int, mem@.len() as int),
    ensures
        r@ == copied_in(mem@, buffer_pieces(page_table.entries(), src, len as int)->0),
        r@.len() == len,
{
    let ghost pt = page_table.entries();
    let pieces = translated_bytes_buffer(page_table, src, len as u64).unwrap();
    let ghost ps = pieces@;
    proof {
        lemma_reachable(pt, src, len as int, mem@.len() as int);
        assert(ps == buffer_pieces(pt, src, len as int)->0);
        assert(ps.take(0) =~= Seq::<PhysSlice>::empty());
    }
    let mut r: Vec<u8> = Vec::new();
    let mut i: usize = 0;
    while i < pieces.len()
        invariant
            ps == pieces@,
            i <= ps.len(),
            pieces_fit(ps, mem@.len() as int),
            forall|j: int| 0 <= j < ps.len() ==> (#[trigger] ps[j]).start <= ps[j].end,
            total_len(ps) == len,
            r@ == copied_in(mem@, ps.take(i as int)),
            r@.len() == total_len(ps.take(i as int)),
        decreases ps.len() - i,
    {
        let p = pieces[i];
        proof {
            assert(ps.take(i + 1).drop_last() =~= ps.take(i as int));
            assert(ps.take(i + 1).last() == p);
            lemma_total_take(ps, i + 1);
            assert(p == ps[i as int]);
            assert(piece_base(p) + piece_len(p) <= mem@.len());
            assert(p.start <= p.end);
            assert(r@.len() + piece_len(p) <= len);
        }
        let (base, n) = piece_range(p, mem.len());
        read_bytes(&mut r, mem, base, n);
        i = i + 1;
    }
    proof {
        assert(ps.take(ps.len() as int) =~= ps);
    }
    r
}

/// Writing never changes the size of physical memory.
proof fn lemma_copied_out_len(mem: Seq<u8>, ps: Seq<PhysSlice>, src: Seq<u8>)
    ensures
        copied_out(mem, ps, src).len() == mem.len(),
    decreases ps.len(),
{
    if ps.len() > 0 {
        lemma_copied_out_len(mem, ps.drop_last(), src);
    }
}

/// Reading pieces gives as many bytes as they cover.
proof fn lemma_copied_in_len(mem: Seq<u8>, ps: Seq<PhysSlice>)
    requires
        pieces_fit(ps, mem.len() as int),
    ensures
        copied_in(mem, ps).len() == total_len(ps),
    decreases ps.len(),
{
    if ps.len() > 0 {
        assert(pieces_fit(ps.drop_last(), mem.len() as int)) by {
            assert forall|i: int| 0 <= i < ps.drop_last().len() implies (#[trigger] ps.drop_last()[i]).start
                <= ps.drop_last()[i].end && piece_base(ps.drop_last()[i]) + piece_len(ps.drop_last()[i]) <= mem.len() by {
                assert(ps.drop_last()[i] == ps[i]);
            }
        }
        lemma_copied_in_len(mem, ps.drop_last());
        assert(ps.last() == ps[ps.len() - 1]);
    }
}

/// Writing a piece that shares no byte with other pieces leaves what those read.
proof fn lemma_read_other_pieces(mem: Seq<u8>, p: PhysSlice, bytes: Seq<u8>, ps: Seq<PhysSlice>)
    requires
        pieces_fit(ps, mem.len() as int),
        forall|i: int|
            0 <= i < ps.len() ==> piece_base(#[trigger] ps[i]) + piece_len(ps[i]) <= piece_base(p) || piece_base(p)
                + piece_len(p) <= piece_base(ps[i]),
    ensures
        copied_in(write_piece(mem, p, bytes), ps) == copied_in(mem, ps),
    decreases ps.len(),
{
    if ps.len() > 0 {
        let q = ps.last();
        assert(q == ps[ps.len() - 1]);
        assert(pieces_fit(ps.drop_last(), mem.len() as int)) by {
            assert forall|i: int| 0 <= i < ps.drop_last().len() implies (#[trigger] ps.drop_last()[i]).start
                <= ps.drop_last()[i].end && piece_base(ps.drop_last()[i]) + piece_len(ps.drop_last()[i]) <= mem.len() by {
                assert(ps.drop_last()[i] == ps[i]);
            }
        }
        assert forall|i: int| 0 <= i < ps.drop_last().len() implies piece_base(#[trigger] ps.drop_last()[i])
            + piece_len(ps.drop_last()[i]) <= piece_base(p) || piece_base(p) + piece_len(p) <= piece_base(
            ps.drop_last()[i],
        ) by {
            assert(ps.drop_last()[i] == ps[i]);
        }
        lemma_read_other_pieces(mem, p, bytes, ps.drop_last());
        let w = write_piece(mem, p, bytes);
        assert(w.subrange(piece_base(q), piece_base(q) + piece_len(q)) =~= mem.subrange(
            piece_base(q),
            piece_base(q) + piece_len(q),
        ));
    }
}

/// What `copyout` writes, `copyin` reads back: when the pages of a buffer lie in frames
/// that share no byte, reading the buffer after writing the bytes `src` into it gives
/// `src`.
pub proof fn law_copyin_after_copyout(mem: Seq<u8>, ps: Seq<PhysSlice>, src: Seq<u8>)
    requires
        pieces_fit(ps, mem.len() as int),
        pieces_disjoint(ps),
        total_len(ps) == src.len(),
    ensures
        copied_in(copied_out(mem, ps, src), ps) == src,
    decreases ps.len(),
{
    if ps.len() == 0 {
        assert(src =~= Seq::<u8>::empty());
    } else {
        let ps0 = ps.drop_last();
        let q = ps.last();
        assert(q == ps[ps.len() - 1]);
        assert forall|i: int| 0 <= i < ps.len() implies (#[trigger] ps[i]).start <= ps[i].end by {}
        assert(pieces_fit(ps0, mem.len() as int)) by {
            assert forall|i: int| 0 <= i < ps0.len() implies (#[trigger] ps0[i]).start <= ps0[i].end && piece_base(
                ps0[i],
            ) + piece_len(ps0[i]) <= mem.len() by {
                assert(ps0[i] == ps[i]);
            }
        }
        assert(pieces_disjoint(ps0)) by {
            assert forall|i: int, j: int| #![trigger ps0[i], ps0[j]] 0 <= i < j < ps0.len() implies piece_base(ps0[i])
                + piece_len(ps0[i]) <= piece_base(ps0[j]) || piece_base(ps0[j]) + piece_len(ps0[j]) <= piece_base(
                ps0[i],
            ) by {
                assert(ps0[i] == ps[i] && ps0[j] == ps[j]);
            }
        }
        lemma_total_nonneg(ps0);
        let t0 = total_len(ps0);
        let src0 = src.subrange(0, t0);
        assert(total_len(ps0) == src0.len());
        law_copyin_after_copyout(mem, ps0, src0);
        let m0 = copied_out(mem, ps0, src);
        assert(copied_out(mem, ps0, src) == copied_out(mem, ps0, src0)) by {
            lemma_copied_out_prefix(mem, ps0, src, src0);
        }
        lemma_copied_out_len(mem, ps0, src);
        let tail = src.subrange(t0, t0 + piece_len(q));
        assert forall|i: int| 0 <= i < ps0.len() implies piece_base(#[trigger] ps0[i]) + piece_len(ps0[i])
            <= piece_base(q) || piece_base(q) + piece_len(q) <= piece_base(ps0[i]) by {
            assert(ps0[i] == ps[i]);
        }
        lemma_read_other_pieces(m0, q, tail, ps0);
        let w = write_piece(m0, q, tail);
        assert(w.subrange(piece_base(q), piece_base(q) + piece_len(q)) =~= tail);
        assert(src =~= src0 + tail);
    }
}

/// Writing pieces reads only the bytes of the source that they cover.
proof fn lemma_copied_out_prefix(mem: Seq<u8>, ps: Seq<PhysSlice>, src: Seq<u8>, src0: Seq<u8>)
    requires
        forall|i: int| 0 <= i < ps.len() ==> (#[trigger] ps[i]).start <= ps[i].end,
        total_len(ps) <= src0.len() <= src.len(),
        src0 == src.subrange(0, src0.len() as int),
    ensures
        copied_out(mem, ps, src) == copied_out(mem, ps, src0),
    decreases ps.len(),
{
    if ps.len() > 0 {
        let ps0 = ps.drop_last();
        assert forall|i: int| 0 <= i < ps0.len() implies (#[trigger] ps0[i]).start <= ps0[i].end by {
            assert(ps0[i] == ps[i]);
        }
        assert(ps.last() == ps[ps.len() - 1]);
        lemma_total_nonneg(ps0);
        lemma_copied_out_prefix(mem, ps0, src, src0);
        let t0 = total_len(ps0);
        assert(src.subrange(t0, t0 + piece_len(ps.last())) =~= src0.subrange(t0, t0 + piece_len(ps.last())));
    }
}

} // verus!
