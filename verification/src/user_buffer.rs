//! A buffer of the user's address space, held as the list of its pieces, one per page.
use vstd::prelude::*;

verus! {

/// The bytes of a list of pieces, one piece after the other.
pub open spec fn flat(s: Seq<Seq<u8>>) -> Seq<u8>
    decreases s.len(),
{
    if s.len() == 0 {
        Seq::empty()
    } else {
        flat(s.drop_last()) + s.last()
    }
}

/// The bytes of two lists of pieces put one after the other.
pub proof fn lemma_flat_append(a: Seq<Seq<u8>>, b: Seq<Seq<u8>>)
    ensures
        flat(a + b) == flat(a) + flat(b),
    decreases b.len(),
{
    if b.len() == 0 {
        assert(a + b =~= a);
        assert(flat(b) =~= Seq::<u8>::empty());
        assert(flat(a) + flat(b) =~= flat(a));
    } else {
        lemma_flat_append(a, b.drop_last());
        assert((a + b).drop_last() =~= a + b.drop_last());
        assert((a + b).last() == b.last());
        assert(flat(a + b) =~= flat(a) + flat(b));
    }
}

/// A list of pieces splits around any of its pieces.
pub proof fn lemma_flat_split(s: Seq<Seq<u8>>, k: int)
    requires
        0 <= k < s.len(),
    ensures
        flat(s) == flat(s.take(k)) + s[k] + flat(s.skip(k + 1)),
        flat(s.take(k + 1)) == flat(s.take(k)) + s[k],
        flat(s).len() == flat(s.take(k)).len() + s[k].len() + flat(s.skip(k + 1)).len(),
{
    let a = s.take(k);
    let b = seq![s[k]];
    let c = s.skip(k + 1);
    assert(s =~= a + b + c);
    lemma_flat_append(a + b, c);
    lemma_flat_append(a, b);
    assert(b.drop_last() =~= Seq::<Seq<u8>>::empty());
    assert(flat(b) =~= flat(b.drop_last()) + s[k]);
    assert(flat(b) =~= s[k]);
    assert(s.take(k + 1) =~= a + b);
}

/// The bytes of the pieces before piece `k` are a prefix of all the bytes.
pub proof fn lemma_flat_prefix_len(s: Seq<Seq<u8>>, k: int)
    requires
        0 <= k <= s.len(),
    ensures
        flat(s.take(k)).len() <= flat(s).len(),
        k == s.len() ==> flat(s.take(k)) == flat(s),
{
    if k == s.len() {
        assert(s.take(k) =~= s);
    } else {
        lemma_flat_split(s, k);
    }
}

/// A buffer of the user's address space, as the list of its pieces.
pub struct UserBuffer {
    pub buffers: Vec<Vec<u8>>,
}

impl UserBuffer {
    /// The pieces, as sequences of bytes.
    pub open spec fn pieces(&self) -> Seq<Seq<u8>> {
        self.buffers@.map_values(|v: Vec<u8>| v@)
    }

    /// All the bytes of the buffer, one piece after the other.
    pub open spec fn bytes(&self) -> Seq<u8> {
        flat(self.pieces())
    }

    /// The number of bytes of every piece.
    pub open spec fn piece_lens(&self) -> Seq<nat> {
        self.buffers@.map_values(|v: Vec<u8>| v@.len())
    }

    /// A buffer with no piece.
    pub fn empty() -> (r: UserBuffer)
        ensures
            r.buffers@.len() == 0,
            r.bytes() == Seq::<u8>::empty(),
    {
        let r = UserBuffer { buffers: Vec::new() };
        proof {
            assert(r.pieces() =~= Seq::<Seq<u8>>::empty());
        }
        r
    }

    /// A buffer made of the given pieces.
    pub fn wrap(buffers: Vec<Vec<u8>>) -> (r: UserBuffer)
        ensures
            r.buffers == buffers,
    {
        UserBuffer { buffers }
    }

    /// The total number of bytes of the buffer.
    pub fn len(&self) -> (r: usize)
        requires
            self.bytes().len() <= usize::MAX,
        ensures
            r == self.bytes().len(),
    {
        let mut total: usize = 0;
        let mut i: usize = 0;
        while i < self.buffers.len()
            invariant
                i <= self.buffers@.len(),
                self.bytes().len() <= usize::MAX,
                total == flat(self.pieces().take(i as int)).len(),
            decreases self.buffers@.len() - i,
        {
            proof {
                lemma_flat_split(self.pieces(), i as int);
                lemma_flat_prefix_len(self.pieces(), i as int + 1);
            }
            total = total + self.buffers[i].len();
            i = i + 1;
        }
        proof {
            lemma_flat_prefix_len(self.pieces(), i as int);
        }
        total
    }

    /// Copies `src[0..len]` into the bytes of the buffer from position `offset` on, piece by
    /// piece, and returns `len`.
    fn write_region(&mut self, offset: usize, src: &[u8], len: usize) -> (r: usize)
        requires
            old(self).bytes().len() <= usize::MAX,
            len <= src@.len(),
            offset + len <= old(self).bytes().len(),
            len > 0 || offset == old(self).bytes().len(),
        ensures
            r == len,
            final(self).piece_lens() == old(self).piece_lens(),
            final(self).bytes() == old(self).bytes().take(offset as int) + src@.take(len as int)
                + old(self).bytes().skip(offset + len),
    {
        let ghost old_s = self.pieces();
        let ghost total = flat(old_s).len();
        let ghost target = flat(old_s).take(offset as int) + src@.take(len as int) + flat(old_s).skip(
            offset + len,
        );
        let mut head: usize = 0;
        let mut current: usize = 0;
        let mut k: usize = 0;
        proof {
            assert(old_s.take(0) =~= Seq::<Seq<u8>>::empty());
            assert(flat(self.pieces().take(0)) =~= target.take(0));
        }
        while k < self.buffers.len()
            invariant
                k <= self.buffers@.len(),
                self.buffers@.len() == old_s.len(),
                old_s == old(self).pieces(),
                total == flat(old_s).len(),
                total <= usize::MAX,
                len <= src@.len(),
                offset + len <= total,
                len > 0 || offset == total,
                target == flat(old_s).take(offset as int) + src@.take(len as int) + flat(old_s).skip(
                    offset + len,
                ),
                head == flat(old_s.take(k as int)).len(),
                forall|i: int| 0 <= i < old_s.len() ==> (#[trigger] self.pieces()[i]).len() == old_s[i].len(),
                forall|i: int| k <= i < old_s.len() ==> #[trigger] self.pieces()[i] == old_s[i],
                flat(self.pieces().take(k as int)) == target.take(head as int),
                current == if head > offset { head - offset } else { 0 },
                len > 0 ==> current < len,
            decreases self.buffers@.len() - k,
        {
            proof {
                lemma_flat_split(old_s, k as int);
                lemma_flat_prefix_len(old_s, k as int + 1);
            }
            let sblen = self.buffers[k].len();
            proof {
                assert(self.pieces()[k as int] == old_s[k as int]);
                assert(sblen == old_s[k as int].len());
            }
            if head + sblen < offset {
                proof {
                    let p = self.pieces();
                    assert(target.subrange(head as int, head + sblen) =~= old_s[k as int]);
                    assert(p.take(k + 1) =~= p.take(k as int).push(p[k as int]));
                    assert(p.take(k + 1).drop_last() =~= p.take(k as int));
                    assert(flat(p.take(k + 1)) =~= target.take(head + sblen));
                }
                head = head + sblen;
                k = k + 1;
                continue;
            }
            let mut j: usize = if head < offset {
                offset - head
            } else {
                0
            };
            proof {
                if head < offset {
                    assert(target.subrange(head as int, offset as int) =~= old_s[k as int].take(j as int));
                }
                assert(self.pieces()[k as int] =~= target.subrange(head as int, head + j)
                    + old_s[k as int].skip(j as int));
            }
            while j < sblen
                invariant
                    k < self.buffers@.len(),
                    self.buffers@.len() == old_s.len(),
                    old_s == old(self).pieces(),
                    total == flat(old_s).len(),
                    len <= src@.len(),
                    offset + len <= total,
                    len > 0 || offset == total,
                    target == flat(old_s).take(offset as int) + src@.take(len as int) + flat(
                        old_s,
                    ).skip(offset + len),
                    head == flat(old_s.take(k as int)).len(),
                    flat(old_s) == flat(old_s.take(k as int)) + old_s[k as int] + flat(
                        old_s.skip(k + 1),
                    ),
                    sblen == old_s[k as int].len(),
                    j <= sblen,
                    head + j >= offset,
                    current == head + j - offset,
                    head + sblen <= total,
                    len > 0 ==> current < len,
                    forall|i: int|
                        0 <= i < old_s.len() ==> (#[trigger] self.pieces()[i]).len() == old_s[i].len(),
                    forall|i: int| k < i < old_s.len() ==> #[trigger] self.pieces()[i] == old_s[i],
                    flat(self.pieces().take(k as int)) == target.take(head as int),
                    self.pieces()[k as int] == target.subrange(head as int, head + j) + old_s[k as int].skip(
                        j as int,
                    ),
                decreases sblen - j,
            {
                let ghost before = self.pieces();
                self.buffers[k][j] = src[current];
                proof {
                    assert(target[head + j] == src@[current as int]);
                    assert forall|i: int| 0 <= i < old_s.len() && i != k implies #[trigger] self.pieces()[i]
                        == before[i] by {}
                    assert(self.pieces()[k as int] =~= target.subrange(head as int, head + j + 1)
                        + old_s[k as int].skip(j + 1));
                    assert(self.pieces().take(k as int) =~= before.take(k as int));
                }
                current = current + 1;
                if current == len {
                    proof {
                        let p = self.pieces();
                        lemma_flat_split(p, k as int);
                        assert(p.skip(k + 1) =~= old_s.skip(k + 1));
                        assert(flat(old_s).skip(offset + len) =~= old_s[k as int].skip(j + 1) + flat(
                            old_s.skip(k + 1),
                        ));
                        assert(target.take(head as int) + target.subrange(head as int, head + j + 1)
                            =~= target.take(offset + len));
                        assert(target.skip(offset + len) =~= flat(old_s).skip(offset + len));
                        assert(target =~= target.take(offset + len) + target.skip(offset + len));
                        assert(flat(p) =~= target);
                        assert forall|i: int| 0 <= i < old_s.len() implies self.piece_lens()[i]
                            == old(self).piece_lens()[i] by {
                            assert(self.pieces()[i].len() == old_s[i].len());
                        }
                        assert(self.piece_lens() =~= old(self).piece_lens());
                    }
                    return len;
                }
                j = j + 1;
            }
            proof {
                let p = self.pieces();
                lemma_flat_split(p, k as int);
                assert(p[k as int] =~= target.subrange(head as int, head + sblen));
                assert(flat(p.take(k + 1)) =~= target.take(head + sblen));
            }
            head = head + sblen;
            k = k + 1;
        }
        proof {
            let p = self.pieces();
            lemma_flat_prefix_len(old_s, k as int);
            lemma_flat_prefix_len(p, k as int);
            assert(p.take(k as int) =~= p);
            assert(flat(p) =~= target);
            assert forall|i: int| 0 <= i < old_s.len() implies self.piece_lens()[i]
                == old(self).piece_lens()[i] by {
                assert(self.pieces()[i].len() == old_s[i].len());
            }
            assert(self.piece_lens() =~= old(self).piece_lens());
        }
        0
    }

    /// Copies the first bytes of `buff` into the buffer, as many as both hold, and returns
    /// their number; the rest of the buffer is kept.
    pub fn write(&mut self, buff: &[u8]) -> (r: usize)
        requires
            old(self).bytes().len() <= usize::MAX,
        ensures
            r == if old(self).bytes().len() <= buff@.len() {
                old(self).bytes().len() as usize
            } else {
                buff@.len() as usize
            },
            final(self).piece_lens() == old(self).piece_lens(),
            final(self).bytes() == buff@.take(r as int) + old(self).bytes().skip(r as int),
            final(self).bytes() == written(old(self).bytes(), buff@),
    {
        if buff.len() == 0 {
            proof {
                assert(buff@.take(0) + old(self).bytes().skip(0) =~= old(self).bytes());
            }
            return 0;
        }
        let total = self.len();
        let len = if total <= buff.len() {
            total
        } else {
            buff.len()
        };
        let r = self.write_region(0, buff, len);
        proof {
            assert(old(self).bytes().take(0) + buff@.take(len as int) =~= buff@.take(len as int));
        }
        r
    }

    /// Copies all of `buff` into the bytes of the buffer from position `offset` on, and
    /// returns its length. It is a fatal error when `buff` does not fit, and a fatal error (it indexes
    /// past the end of `buff`) when `buff` is empty and `offset` is inside the buffer.
    pub fn write_at(&mut self, offset: usize, buff: &[u8]) -> (r: isize)
        requires
            old(self).bytes().len() <= usize::MAX,
            offset + buff@.len() <= old(self).bytes().len(),
            buff@.len() > 0 || offset == old(self).bytes().len(),
            buff@.len() <= isize::MAX,
        ensures
            r == buff@.len(),
            final(self).piece_lens() == old(self).piece_lens(),
            final(self).bytes() == old(self).bytes().take(offset as int) + buff@ + old(self).bytes().skip(
                offset + buff@.len(),
            ),
    {
        let len = buff.len();
        let total = self.len();
        if offset + len > total {
            assert(false);
        }
        let written = self.write_region(offset, buff, len);
        proof {
            assert(buff@.take(len as int) =~= buff@);
        }
        to_isize(written)
    }

    /// Writes 0 to every byte of the buffer and returns its length.
    pub fn write_zeros(&mut self) -> (r: usize)
        requires
            old(self).bytes().len() <= usize::MAX,
        ensures
            r == old(self).bytes().len(),
            final(self).piece_lens() == old(self).piece_lens(),
            final(self).bytes() == Seq::new(r as nat, |i: int| 0u8),
    {
        let ghost old_s = self.pieces();
        let total = self.len();
        let ghost target = Seq::new(total as nat, |i: int| 0u8);
        let mut head: usize = 0;
        let mut k: usize = 0;
        proof {
            assert(old_s.take(0) =~= Seq::<Seq<u8>>::empty());
            assert(flat(self.pieces().take(0)) =~= target.take(0));
        }
        while k < self.buffers.len()
            invariant
                k <= self.buffers@.len(),
                self.buffers@.len() == old_s.len(),
                old_s == old(self).pieces(),
                total == flat(old_s).len(),
                target == Seq::new(total as nat, |i: int| 0u8),
                head == flat(old_s.take(k as int)).len(),
                forall|i: int| 0 <= i < old_s.len() ==> (#[trigger] self.pieces()[i]).len() == old_s[i].len(),
                forall|i: int| k <= i < old_s.len() ==> #[trigger] self.pieces()[i] == old_s[i],
                flat(self.pieces().take(k as int)) == target.take(head as int),
            decreases self.buffers@.len() - k,
        {
            proof {
                lemma_flat_split(old_s, k as int);
                lemma_flat_prefix_len(old_s, k as int + 1);
            }
            let sblen = self.buffers[k].len();
            let mut j: usize = 0;
            proof {
                assert(self.pieces()[k as int] =~= target.subrange(head as int, head as int)
                    + old_s[k as int].skip(0));
            }
            while j < sblen
                invariant
                    k < self.buffers@.len(),
                    self.buffers@.len() == old_s.len(),
                    old_s == old(self).pieces(),
                    total == flat(old_s).len(),
                    target == Seq::new(total as nat, |i: int| 0u8),
                    head == flat(old_s.take(k as int)).len(),
                    head + sblen <= total,
                    sblen == old_s[k as int].len(),
                    j <= sblen,
                    forall|i: int|
                        0 <= i < old_s.len() ==> (#[trigger] self.pieces()[i]).len() == old_s[i].len(),
                    forall|i: int| k < i < old_s.len() ==> #[trigger] self.pieces()[i] == old_s[i],
                    flat(self.pieces().take(k as int)) == target.take(head as int),
                    self.pieces()[k as int] == target.subrange(head as int, head + j) + old_s[k as int].skip(
                        j as int,
                    ),
                decreases sblen - j,
            {
                let ghost before = self.pieces();
                self.buffers[k][j] = 0;
                proof {
                    assert forall|i: int| 0 <= i < old_s.len() && i != k implies #[trigger] self.pieces()[i]
                        == before[i] by {}
                    assert(self.pieces()[k as int] =~= target.subrange(head as int, head + j + 1)
                        + old_s[k as int].skip(j + 1));
                    assert(self.pieces().take(k as int) =~= before.take(k as int));
                }
                j = j + 1;
            }
            proof {
                let p = self.pieces();
                lemma_flat_split(p, k as int);
                assert(p[k as int] =~= target.subrange(head as int, head + sblen));
                assert(flat(p.take(k + 1)) =~= target.take(head + sblen));
            }
            head = head + sblen;
            k = k + 1;
        }
        proof {
            let p = self.pieces();
            lemma_flat_prefix_len(old_s, k as int);
            lemma_flat_prefix_len(p, k as int);
            assert(p.take(k as int) =~= p);
            assert(flat(p) =~= target);
            assert forall|i: int| 0 <= i < old_s.len() implies self.piece_lens()[i]
                == old(self).piece_lens()[i] by {
                assert(self.pieces()[i].len() == old_s[i].len());
            }
            assert(self.piece_lens() =~= old(self).piece_lens());
        }
        total
    }

    /// Copies the first bytes of the buffer into `buff`, as many as both hold, and returns
    /// their number; the rest of `buff` is kept.
    pub fn read(&self, buff: &mut [u8]) -> (r: usize)
        requires
            self.bytes().len() <= usize::MAX,
        ensures
            r == if self.bytes().len() <= old(buff)@.len() {
                self.bytes().len() as usize
            } else {
                old(buff)@.len() as usize
            },
            final(buff)@ == self.bytes().take(r as int) + old(buff)@.skip(r as int),
            final(buff)@ == read_into(self.bytes(), old(buff)@),
    {
        let ghost s = self.pieces();
        let ghost orig = buff@;
        if buff.len() == 0 {
            proof {
                assert(self.bytes().take(0) + orig.skip(0) =~= orig);
            }
            return 0;
        }
        let total = self.len();
        let len = if total <= buff.len() {
            total
        } else {
            buff.len()
        };
        let mut current: usize = 0;
        let mut k: usize = 0;
        proof {
            assert(s.take(0) =~= Seq::<Seq<u8>>::empty());
            assert(buff@ =~= flat(s).take(0) + orig.skip(0));
        }
        while k < self.buffers.len()
            invariant
                k <= self.buffers@.len(),
                self.buffers@.len() == s.len(),
                s == self.pieces(),
                total == flat(s).len(),
                len <= total,
                len <= orig.len(),
                buff@.len() == orig.len(),
                len == (if total <= orig.len() { total } else { orig.len() as usize }),
                orig == old(buff)@,
                len > 0 || total == 0,
                current == flat(s.take(k as int)).len(),
                len > 0 ==> current < len,
                buff@ == flat(s).take(current as int) + orig.skip(current as int),
            decreases self.buffers@.len() - k,
        {
            proof {
                lemma_flat_split(s, k as int);
                lemma_flat_prefix_len(s, k as int + 1);
            }
            let sblen = self.buffers[k].len();
            let mut j: usize = 0;
            while j < sblen
                invariant
                    k < self.buffers@.len(),
                    self.buffers@.len() == s.len(),
                    s == self.pieces(),
                    total == flat(s).len(),
                    len <= total,
                    len <= orig.len(),
                    buff@.len() == orig.len(),
                    len > 0 || total == 0,
                    len == (if total <= orig.len() { total } else { orig.len() as usize }),
                    orig == old(buff)@,
                    flat(s) == flat(s.take(k as int)) + s[k as int] + flat(s.skip(k + 1)),
                    sblen == s[k as int].len(),
                    j <= sblen,
                    current == flat(s.take(k as int)).len() + j,
                    len > 0 ==> current < len,
                    buff@ == flat(s).take(current as int) + orig.skip(current as int),
                decreases sblen - j,
            {
                proof {
                    assert(self.buffers@[k as int]@ == s[k as int]);
                    assert(flat(s)[current as int] == s[k as int][j as int]);
                }
                buff[current] = self.buffers[k][j];
                current = current + 1;
                proof {
                    assert(buff@ =~= flat(s).take(current as int) + orig.skip(current as int));
                }
                if current == len {
                    return len;
                }
                j = j + 1;
            }
            k = k + 1;
        }
        proof {
            lemma_flat_prefix_len(s, k as int);
            assert(s.take(k as int) =~= s);
        }
        len
    }
}

impl UserBuffer {
    /// An iterator over the positions of the bytes of the buffer, piece by piece.
    pub fn into_iter(self) -> (r: UserBufferIterator)
        ensures
            r.pieces() == self.pieces(),
            r.position() == (0usize, 0usize),
    {
        UserBufferIterator { buffers: self.buffers, current_buffer: 0, current_idx: 0 }
    }
}

/// The bytes of a [`UserBuffer`] that remain to be visited. Each step yields the position of
/// one byte: the index of its piece and its index inside that piece.
pub struct UserBufferIterator {
    buffers: Vec<Vec<u8>>,
    current_buffer: usize,
    current_idx: usize,
}

impl UserBufferIterator {
    /// The pieces being visited.
    pub closed spec fn pieces(&self) -> Seq<Seq<u8>> {
        self.buffers@.map_values(|v: Vec<u8>| v@)
    }

    /// The position of the next byte to visit.
    pub closed spec fn position(&self) -> (usize, usize) {
        (self.current_buffer, self.current_idx)
    }

    /// Yields the position of the next byte and advances, or `None` once every piece is
    /// visited. It is a fatal error (it indexes past the end) on an empty piece.
    pub fn next(&mut self) -> (r: Option<(usize, usize)>)
        requires
            old(self).position().0 < old(self).pieces().len() ==> old(self).position().1 < old(
                self,
            ).pieces()[old(self).position().0 as int].len(),
        ensures
            final(self).pieces() == old(self).pieces(),
            old(self).position().0 >= old(self).pieces().len() ==> r is None && final(self).position()
                == old(self).position(),
            old(self).position().0 < old(self).pieces().len() ==> {
                let (b, i) = old(self).position();
                &&& r == Some((b, i))
                &&& if i + 1 == old(self).pieces()[b as int].len() {
                    final(self).position() == ((b + 1) as usize, 0usize)
                } else {
                    final(self).position() == (b, (i + 1) as usize)
                }
            },
    {
        if self.current_buffer >= self.buffers.len() {
            None
        } else {
            let r = (self.current_buffer, self.current_idx);
            proof {
                assert(self.buffers@[self.current_buffer as int]@ == self.pieces()[self.current_buffer as int]);
                assert(self.current_idx < self.buffers@[self.current_buffer as int]@.len());
            }
            let n = self.buffers[self.current_buffer].len();
            if self.current_idx + 1 == n {
                self.current_idx = 0;
                self.current_buffer = self.current_buffer + 1;
            } else {
                self.current_idx = self.current_idx + 1;
            }
            Some(r)
        }
    }
}

/// A length as a signed machine word.
fn to_isize(n: usize) -> (r: isize)
    requires
        n <= isize::MAX,
    ensures
        r == n,
{
    n as isize
}


/// How many bytes a copy between sequences of lengths `a` and `b` moves: the smaller.
pub open spec fn copy_count(a: nat, b: nat) -> int {
    if a <= b {
        a as int
    } else {
        b as int
    }
}

/// The bytes of a buffer holding `b` after `write(w)`: the first bytes of `w`, as many as
/// both hold, then the rest of `b`.
pub open spec fn written(b: Seq<u8>, w: Seq<u8>) -> Seq<u8> {
    w.take(copy_count(b.len(), w.len())) + b.skip(copy_count(b.len(), w.len()))
}

/// What `read` leaves in `d` from a buffer holding `b`: the first bytes of `b`, as many as
/// both hold, then the rest of `d`.
pub open spec fn read_into(b: Seq<u8>, d: Seq<u8>) -> Seq<u8> {
    b.take(copy_count(b.len(), d.len())) + d.skip(copy_count(b.len(), d.len()))
}

/// Reading a buffer back after writing `w` into it gives the bytes written: all of `w` when
/// the buffer holds at least as many bytes and the reader takes as many as `w` has.
pub proof fn law_read_after_write(b: Seq<u8>, w: Seq<u8>, d: Seq<u8>)
    requires
        d.len() == w.len(),
    ensures
        read_into(written(b, w), d).take(copy_count(b.len(), w.len())) == w.take(copy_count(b.len(), w.len())),
        b.len() >= w.len() ==> read_into(written(b, w), d) == w,
{
    let r = copy_count(b.len(), w.len());
    let b1 = written(b, w);
    assert(b1.len() == b.len());
    assert(read_into(b1, d).take(r) =~= w.take(r));
    if b.len() >= w.len() {
        assert(read_into(b1, d) =~= w);
    }
}

} // verus!
