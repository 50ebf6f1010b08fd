//! Scatter/gather I/O vectors of virtio requests.
//!
//! An I/O vector is a list of guest buffers, each given by its start address
//! and its length. Read in order, the buffers form one byte stream; offset `k`
//! of that stream lies in the first buffer whose cumulated length exceeds `k`.
use vstd::prelude::*;

verus! {

/// One guest buffer of an I/O vector.
#[derive(Clone, Copy, Debug)]
pub struct VirtioIovData {
    pub buf: usize,
    pub len: usize,
}

/// The buffers of an I/O vector, in order.
pub struct VirtioIovInner {
    pub vector: Vec<VirtioIovData>,
}

/// A copy of `len` bytes from address `src` to address `dst`.
#[derive(Clone, Copy, Debug)]
pub struct IovCopy {
    pub dst: usize,
    pub src: usize,
    pub len: usize,
}

/// What a transfer between two I/O vectors does: the copies to perform, in
/// order, and the number of requested bytes that were not transferred.
pub struct IovWritePlan {
    pub copies: Vec<IovCopy>,
    pub remain: usize,
}

/// Total length of the buffers `segs[0..i]`.
pub open spec fn prefix_len(segs: Seq<VirtioIovData>, i: int) -> int
    decreases i,
{
    if i <= 0 || segs.len() == 0 {
        0
    } else {
        prefix_len(segs, i - 1) + segs[i - 1].len
    }
}

/// Total length of all buffers.
pub open spec fn total_len(segs: Seq<VirtioIovData>) -> int {
    prefix_len(segs, segs.len() as int)
}

/// Where offset `k`, counted from the start of buffer `i`, lies from buffer
/// `i` on: the address of that byte and how many bytes of its buffer remain
/// from it; `None` past the end of the stream.
pub open spec fn seg_from(segs: Seq<VirtioIovData>, i: int, k: int) -> Option<(int, int)>
    decreases segs.len() - i,
{
    if i < 0 || i >= segs.len() {
        None
    } else if k < segs[i].len {
        Some((segs[i].buf + k, segs[i].len - k))
    } else {
        seg_from(segs, i + 1, k - segs[i].len)
    }
}

/// Where offset `k` of the byte stream lies (see `seg_from`).
pub open spec fn seg_at(segs: Seq<VirtioIovData>, k: int) -> Option<(int, int)> {
    seg_from(segs, 0, k)
}

/// Offset `b` is where some buffer of `segs` starts or where the last one ends.
pub open spec fn is_boundary(segs: Seq<VirtioIovData>, b: int) -> bool {
    exists|i: int| 0 <= i <= segs.len() && #[trigger] prefix_len(segs, i) == b
}

/// No buffer reaches the last address.
pub open spec fn segs_fit(segs: Seq<VirtioIovData>) -> bool {
    forall|i: int| 0 <= i < segs.len() ==> #[trigger] segs[i].buf + segs[i].len <= usize::MAX
}

pub open spec fn min3(a: int, b: int, c: int) -> int {
    if a <= b && a <= c {
        a
    } else if b <= c {
        b
    } else {
        c
    }
}

/// The copies that move the stream bytes `[k, end)` of `src` to the same
/// offsets of `dst`: each copy stops at the end of a source buffer, of a
/// destination buffer, or at `end`, whichever comes first.
pub open spec fn copy_ops(
    src: Seq<VirtioIovData>,
    dst: Seq<VirtioIovData>,
    k: int,
    end: int,
) -> Seq<IovCopy>
    decreases end - k,
{
    if k < end && seg_at(src, k) is Some && seg_at(dst, k) is Some {
        let (sa, sr) = seg_at(src, k).unwrap();
        let (da, dr) = seg_at(dst, k).unwrap();
        let n = min3(sr, dr, end - k);
        if n > 0 {
            seq![IovCopy { dst: da as usize, src: sa as usize, len: n as usize }]
                + copy_ops(src, dst, k + n, end)
        } else {
            Seq::empty()
        }
    } else {
        Seq::empty()
    }
}

/// Prefix lengths grow with the index.
proof fn lemma_prefix_mono(segs: Seq<VirtioIovData>, i: int, j: int)
    requires
        0 <= i <= j <= segs.len(),
    ensures
        prefix_len(segs, i) <= prefix_len(segs, j),
    decreases j - i,
{
    if i < j {
        lemma_prefix_mono(segs, i, j - 1);
    }
}

/// Skipping whole buffers in front of an offset.
proof fn lemma_seg_from_skip(segs: Seq<VirtioIovData>, j: int, i: int, k: int)
    requires
        0 <= j <= i <= segs.len(),
        k >= prefix_len(segs, i) - prefix_len(segs, j),
    ensures
        seg_from(segs, j, k) == seg_from(segs, i, k - (prefix_len(segs, i) - prefix_len(segs, j))),
    decreases i - j,
{
    if j < i {
        lemma_prefix_mono(segs, j + 1, i);
        assert(prefix_len(segs, j + 1) == prefix_len(segs, j) + segs[j].len);
        lemma_seg_from_skip(segs, j + 1, i, k - segs[j].len);
    }
}

/// A cursor inside buffer `i`, `rem > 0` bytes before its end, locates stream
/// offset `prefix_len(segs, i + 1) - rem`.
proof fn lemma_cursor_locates(segs: Seq<VirtioIovData>, i: int, rem: int)
    requires
        0 <= i < segs.len(),
        0 < rem <= segs[i].len,
    ensures
        seg_at(segs, prefix_len(segs, i + 1) - rem) == Some(
            (segs[i].buf + segs[i].len - rem, rem),
        ),
{
    let k = prefix_len(segs, i + 1) - rem;
    assert(prefix_len(segs, i + 1) == prefix_len(segs, i) + segs[i].len);
    lemma_prefix_mono(segs, 0, i);
    lemma_seg_from_skip(segs, 0, i, k);
}

/// Past the whole stream there is no byte.
proof fn lemma_seg_past_end(segs: Seq<VirtioIovData>, k: int)
    requires
        k >= total_len(segs),
    ensures
        seg_at(segs, k) is None,
{
    lemma_prefix_mono(segs, 0, segs.len() as int);
    lemma_seg_from_skip(segs, 0, segs.len() as int, k);
}

/// No boundary lies strictly inside the rest of the buffer a cursor is in.
proof fn lemma_next_boundary(segs: Seq<VirtioIovData>, i: int, rem: int, b: int)
    requires
        0 <= i < segs.len(),
        0 <= rem <= segs[i].len,
        is_boundary(segs, b),
        b > prefix_len(segs, i + 1) - rem,
    ensures
        b >= prefix_len(segs, i + 1),
{
    let j = choose|j: int| 0 <= j <= segs.len() && #[trigger] prefix_len(segs, j) == b;
    assert(prefix_len(segs, i + 1) == prefix_len(segs, i) + segs[i].len);
    if j <= i {
        lemma_prefix_mono(segs, j, i);
    } else {
        lemma_prefix_mono(segs, i + 1, j);
    }
}

/// Number of bytes a list of copies moves.
pub open spec fn copied_bytes(ops: Seq<IovCopy>) -> int
    decreases ops.len(),
{
    if ops.len() == 0 {
        0
    } else {
        ops[0].len + copied_bytes(ops.drop_first())
    }
}

/// Every offset before the end of the stream lies in some buffer, with at
/// least one byte of it left.
proof fn lemma_seg_from_inside(segs: Seq<VirtioIovData>, i: int, k: int)
    requires
        0 <= i <= segs.len(),
        0 <= k < total_len(segs) - prefix_len(segs, i),
    ensures
        seg_from(segs, i, k) matches Some(p) && 0 < p.1 <= usize::MAX && k + p.1 <= total_len(
            segs,
        ) - prefix_len(segs, i),
    decreases segs.len() - i,
{
    if i == segs.len() {
        assert(false);
    } else {
        assert(prefix_len(segs, i + 1) == prefix_len(segs, i) + segs[i].len);
        if k >= segs[i].len {
            lemma_seg_from_inside(segs, i + 1, k - segs[i].len);
        } else {
            lemma_prefix_mono(segs, i + 1, segs.len() as int);
        }
    }
}

/// The planned copies move exactly the bytes `[k, end)` when both streams hold
/// at least `end` bytes.
proof fn lemma_copy_ops_bytes(src: Seq<VirtioIovData>, dst: Seq<VirtioIovData>, k: int, end: int)
    requires
        0 <= k <= end,
        end <= total_len(src),
        end <= total_len(dst),
    ensures
        copied_bytes(copy_ops(src, dst, k, end)) == end - k,
    decreases end - k,
{
    if k < end {
        assert(prefix_len(src, 0) == 0);
        assert(prefix_len(dst, 0) == 0);
        lemma_seg_from_inside(src, 0, k);
        lemma_seg_from_inside(dst, 0, k);
        let (sa, sr) = seg_at(src, k).unwrap();
        let (da, dr) = seg_at(dst, k).unwrap();
        let n = min3(sr, dr, end - k);
        lemma_copy_ops_bytes(src, dst, k + n, end);
        let ops = copy_ops(src, dst, k, end);
        assert(ops.drop_first() =~= copy_ops(src, dst, k + n, end));
    }
}

/// A transfer between two I/O vectors moves exactly as many bytes as it
/// takes off the requested count: the requested count, or less when a
/// stream ends first.
pub proof fn lemma_write_through_moves_requested(
    src: Seq<VirtioIovData>,
    dst: Seq<VirtioIovData>,
    remain: int,
)
    requires
        remain >= 0,
    ensures
        ({
            let t = min3(remain, total_len(src), total_len(dst));
            &&& copied_bytes(copy_ops(src, dst, 0, t)) == t
            &&& t == remain || t == total_len(src) || t == total_len(dst)
        }),
{
    lemma_prefix_mono(src, 0, src.len() as int);
    lemma_prefix_mono(dst, 0, dst.len() as int);
    let t = min3(remain, total_len(src), total_len(dst));
    lemma_copy_ops_bytes(src, dst, 0, t);
}

/// Whether a transfer of `remain` bytes ends where the loop over `segs` can
/// stop: at or past the end of the stream, or on a buffer boundary.
fn reaches_boundary(segs: &Vec<VirtioIovData>, remain: usize) -> (r: bool)
    ensures
        r == (remain >= total_len(segs@) || is_boundary(segs@, remain as int)),
{
    let ghost s = segs@;
    let mut acc: usize = 0;
    let mut i: usize = 0;
    while i < segs.len()
        invariant
            s == segs@,
            i <= s.len(),
            acc == prefix_len(s, i as int),
            acc <= remain,
        decreases s.len() - i,
    {
        if acc == remain {
            assert(is_boundary(s, remain as int)) by {
                assert(prefix_len(s, i as int) == remain);
            }
            return true;
        }
        let l = segs[i].len;
        assert(prefix_len(s, i + 1) == prefix_len(s, i as int) + s[i as int].len);
        if l > remain - acc {
            proof {
                lemma_prefix_mono(s, i + 1, s.len() as int);
                if is_boundary(s, remain as int) {
                    let j = choose|j: int| 0 <= j <= s.len() && #[trigger] prefix_len(s, j) == remain;
                    if j <= i {
                        lemma_prefix_mono(s, j, i as int);
                    } else {
                        lemma_prefix_mono(s, i + 1, j);
                    }
                }
            }
            return false;
        }
        acc = acc + l;
        i = i + 1;
    }
    true
}

/// Whether no buffer of `segs` reaches the last address.
fn fits_all(segs: &Vec<VirtioIovData>) -> (r: bool)
    ensures
        r == segs_fit(segs@),
{
    let mut i: usize = 0;
    while i < segs.len()
        invariant
            i <= segs@.len(),
            forall|j: int| 0 <= j < i ==> #[trigger] segs@[j].buf + segs@[j].len <= usize::MAX,
        decreases segs@.len() - i,
    {
        if segs[i].buf > usize::MAX - segs[i].len {
            assert(!(segs@[i as int].buf + segs@[i as int].len <= usize::MAX));
            return false;
        }
        i = i + 1;
    }
    true
}

impl VirtioIovInner {
    /// Whether no buffer reaches the last address.
    pub fn fits(&self) -> (r: bool)
        ensures
            r == segs_fit(self.vector@),
    {
        fits_all(&self.vector)
    }

    /// Whether `write_through_iov(dst, remain)` is defined: both vectors have
    /// a buffer and fit, and `remain` ends on a buffer boundary of either
    /// vector unless one of the streams is no longer than `remain`.
    pub fn write_through_iov_ok(&self, dst: &VirtioIovInner, remain: usize) -> (r: bool)
        ensures
            r == (self.vector@.len() > 0 && dst.vector@.len() > 0 && segs_fit(self.vector@)
                && segs_fit(dst.vector@) && (remain >= total_len(self.vector@) || remain
                >= total_len(dst.vector@) || is_boundary(self.vector@, remain as int)
                || is_boundary(dst.vector@, remain as int))),
    {
        if self.vector.len() == 0 || dst.vector.len() == 0 {
            return false;
        }
        if !fits_all(&self.vector) || !fits_all(&dst.vector) {
            return false;
        }
        reaches_boundary(&self.vector, remain) || reaches_boundary(&dst.vector, remain)
    }

    /// An empty I/O vector.
    pub fn default() -> (r: VirtioIovInner)
        ensures
            r.vector@.len() == 0,
    {
        VirtioIovInner { vector: Vec::new() }
    }

    /// Appends the buffer `[buf, buf + len)`.
    pub fn push_data(&mut self, buf: usize, len: usize)
        ensures
            final(self).vector@ == old(self).vector@.push(VirtioIovData { buf, len }),
    {
        self.vector.push(VirtioIovData { buf, len });
    }

    /// Start address of buffer `idx`.
    pub fn get_buf(&self, idx: usize) -> (r: usize)
        requires
            idx < self.vector@.len(),
        ensures
            r == self.vector@[idx as int].buf,
    {
        self.vector[idx].buf
    }

    /// Number of buffers.
    pub fn num(&self) -> (r: usize)
        ensures
            r == self.vector@.len(),
    {
        self.vector.len()
    }

    /// Length of buffer `idx`.
    pub fn get_len(&self, idx: usize) -> (r: usize)
        requires
            idx < self.vector@.len(),
        ensures
            r == self.vector@[idx as int].len,
    {
        self.vector[idx].len
    }

    /// Address of stream offset `size`, or `None` when the buffers hold no
    /// more than `size` bytes.
    pub fn get_ptr(&self, size: usize) -> (r: Option<usize>)
        requires
            seg_at(self.vector@, size as int) is Some ==> seg_at(self.vector@, size as int).unwrap().0
                <= usize::MAX,
        ensures
            r == (match seg_at(self.vector@, size as int) {
                Some(p) => Some(p.0 as usize),
                None => None,
            }),
            size >= total_len(self.vector@) ==> r is None,
            forall|i: int|
                0 <= i < self.vector@.len() && prefix_len(self.vector@, i) <= size < #[trigger] prefix_len(
                    self.vector@,
                    i + 1,
                ) ==> r == Some((self.vector@[i].buf + (size - prefix_len(self.vector@, i))) as usize),
    {
        proof {
            let segs = self.vector@;
            if size >= total_len(segs) {
                lemma_seg_past_end(segs, size as int);
            }
            assert forall|i: int|
                0 <= i < segs.len() && prefix_len(segs, i) <= size < #[trigger] prefix_len(segs, i + 1)
                implies seg_at(segs, size as int) == Some(
                (segs[i].buf + (size - prefix_len(segs, i)), prefix_len(segs, i + 1) - size),
            ) by {
                assert(prefix_len(segs, i + 1) == prefix_len(segs, i) + segs[i].len);
                lemma_cursor_locates(segs, i, prefix_len(segs, i + 1) - size);
            }
        }
        let r = self.locate(size);
        r
    }

    /// Walks the buffers to stream offset `size`.
    fn locate(&self, size: usize) -> (r: Option<usize>)
        requires
            seg_at(self.vector@, size as int) is Some ==> seg_at(self.vector@, size as int).unwrap().0
                <= usize::MAX,
        ensures
            r == (match seg_at(self.vector@, size as int) {
                Some(p) => Some(p.0 as usize),
                None => None,
            }),
    {
        let ghost segs = self.vector@;
        let mut idx = size;
        let mut i: usize = 0;
        while i < self.vector.len()
            invariant
                segs == self.vector@,
                seg_at(segs, size as int) is Some ==> seg_at(segs, size as int).unwrap().0
                    <= usize::MAX,
                0 <= i <= segs.len(),
                seg_from(segs, 0, size as int) == seg_from(segs, i as int, idx as int),
            decreases segs.len() - i,
        {
            let d = self.vector[i];
            if d.len > idx {
                return Some(d.buf + idx);
            } else {
                idx = idx - d.len;
            }
            i = i + 1;
        }
        None
    }

    /// Plans the transfer of `remain` bytes of this vector's stream into the
    /// stream of `dst`, from offset 0 of both: the copies, each bounded by a
    /// buffer end on either side, stop after `remain` bytes or when either
    /// stream ends. `remain` must end at a buffer boundary of either vector
    /// unless it is at least what both streams can carry.
    pub fn write_through_iov(&self, dst: &VirtioIovInner, remain: usize) -> (r: IovWritePlan)
        requires
            self.vector@.len() > 0,
            dst.vector@.len() > 0,
            segs_fit(self.vector@),
            segs_fit(dst.vector@),
            remain >= total_len(self.vector@) || remain >= total_len(dst.vector@)
                || is_boundary(self.vector@, remain as int)
                || is_boundary(dst.vector@, remain as int),
        ensures
            ({
                let t = min3(remain as int, total_len(self.vector@), total_len(dst.vector@));
                &&& r.copies@ == copy_ops(self.vector@, dst.vector@, 0, t)
                &&& r.remain == remain - t
                &&& copied_bytes(r.copies@) + r.remain == remain
                &&& (r.remain > 0 ==> t == total_len(self.vector@) || t == total_len(dst.vector@))
            }),
    {
        let ghost src = self.vector@;
        let ghost dsts = dst.vector@;
        let ghost t = min3(remain as int, total_len(src), total_len(dsts));
        let ghost mut k: int = 0;
        let slen = self.vector.len();
        let dlen = dst.vector.len();
        let mut si: usize = 0;
        let mut di: usize = 0;
        let mut srem = self.vector[0].len;
        let mut drem = dst.vector[0].len;
        let mut left = remain;
        let mut copies: Vec<IovCopy> = Vec::new();
        proof {
            assert(prefix_len(src, 1) == prefix_len(src, 0) + src[0].len);
            assert(prefix_len(dsts, 1) == prefix_len(dsts, 0) + dsts[0].len);
            lemma_prefix_mono(src, 0, src.len() as int);
            lemma_prefix_mono(dsts, 0, dsts.len() as int);
        }
        loop
            invariant
                src == self.vector@,
                dsts == dst.vector@,
                slen == src.len(),
                dlen == dsts.len(),
                slen > 0,
                dlen > 0,
                segs_fit(src),
                segs_fit(dsts),
                t == min3(remain as int, total_len(src), total_len(dsts)),
                remain >= total_len(src) || remain >= total_len(dsts)
                    || is_boundary(src, remain as int)
                    || is_boundary(dsts, remain as int),
                0 <= k <= t,
                left == remain - k,
                si <= slen,
                di <= dlen,
                si < slen ==> srem <= src[si as int].len && k == prefix_len(src, si + 1) - srem,
                si == slen ==> k == total_len(src),
                di < dlen ==> drem <= dsts[di as int].len && k == prefix_len(dsts, di + 1) - drem,
                di == dlen ==> k == total_len(dsts),
                copies@ + copy_ops(src, dsts, k, t) == copy_ops(src, dsts, 0, t),
            ensures
                copies@ == copy_ops(src, dsts, 0, t),
                left == remain - t,
            decreases t - k,
        {
            if left == 0 {
                assert(copy_ops(src, dsts, k, t) =~= Seq::<IovCopy>::empty());
                assert(copies@ + Seq::<IovCopy>::empty() =~= copies@);
                break;
            }
            while si < slen && srem == 0
                invariant
                    src == self.vector@,
                    slen == src.len(),
                    si <= slen,
                    si < slen ==> srem <= src[si as int].len && k == prefix_len(src, si + 1) - srem,
                    si == slen ==> k == total_len(src),
                decreases slen - si,
            {
                proof {
                    if si + 1 < slen {
                        assert(prefix_len(src, si + 2) == prefix_len(src, si + 1) + src[si + 1].len);
                    }
                }
                si = si + 1;
                if si < slen {
                    srem = self.vector[si].len;
                }
            }
            while di < dlen && drem == 0
                invariant
                    dsts == dst.vector@,
                    dlen == dsts.len(),
                    di <= dlen,
                    di < dlen ==> drem <= dsts[di as int].len && k == prefix_len(dsts, di + 1) - drem,
                    di == dlen ==> k == total_len(dsts),
                decreases dlen - di,
            {
                proof {
                    if di + 1 < dlen {
                        assert(prefix_len(dsts, di + 2) == prefix_len(dsts, di + 1) + dsts[di + 1].len);
                    }
                }
                di = di + 1;
                if di < dlen {
                    drem = dst.vector[di].len;
                }
            }
            if si == slen || di == dlen {
                proof {
                    if si == slen {
                        lemma_seg_past_end(src, k);
                    } else {
                        lemma_seg_past_end(dsts, k);
                    }
                    assert(copy_ops(src, dsts, k, t) =~= Seq::<IovCopy>::empty());
                    assert(copies@ + Seq::<IovCopy>::empty() =~= copies@);
                }
                break;
            }
            let n = if srem < drem {
                srem
            } else {
                drem
            };
            let sd = self.vector[si];
            let dd = dst.vector[di];
            proof {
                lemma_cursor_locates(src, si as int, srem as int);
                lemma_cursor_locates(dsts, di as int, drem as int);
                lemma_prefix_mono(src, si + 1, src.len() as int);
                lemma_prefix_mono(dsts, di + 1, dsts.len() as int);
                assert(src[si as int].buf + src[si as int].len <= usize::MAX);
                assert(dsts[di as int].buf + dsts[di as int].len <= usize::MAX);
                // the next copy does not overrun `remain`
                if is_boundary(src, remain as int) {
                    lemma_next_boundary(src, si as int, srem as int, remain as int);
                }
                if is_boundary(dsts, remain as int) {
                    lemma_next_boundary(dsts, di as int, drem as int, remain as int);
                }
                assert(k + n <= t);
            }
            let c = IovCopy { dst: dd.buf + (dd.len - drem), src: sd.buf + (sd.len - srem), len: n };
            proof {
                let tail = copy_ops(src, dsts, k + n, t);
                assert(copy_ops(src, dsts, k, t) == seq![c] + tail);
                assert(copies@.push(c) + tail =~= copies@ + (seq![c] + tail));
            }
            copies.push(c);
            srem = srem - n;
            drem = drem - n;
            left = left - n;
            proof {
                k = k + n;
            }
        }
        proof {
            lemma_write_through_moves_requested(src, dsts, remain as int);
        }
        IovWritePlan { copies, remain: left }
    }
}

} // verus!
