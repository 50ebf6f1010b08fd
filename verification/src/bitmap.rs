//! A bitmap of any length, stored in 64-bit words.
//!
//! Bit `i` lives in word `i / 64`, at position `i % 64` counted from the least
//! significant bit. Bits of the last word past the bitmap's length are kept 0.
use vstd::prelude::*;

verus! {

/// Bit `b` (`b < 64`) of the word `w`.
pub open spec fn word_bit(w: u64, b: int) -> bool {
    (w >> (b as u64)) & 1u64 == 1u64
}

/// Bit `i` of the word sequence `words`.
pub open spec fn words_bit(words: Seq<u64>, i: int) -> bool {
    word_bit(words[i / 64], i % 64)
}

/// Number of words that hold `len` bits.
pub open spec fn words_for(len: int) -> int {
    (len + 63) / 64
}

/// Number of `true` entries.
pub open spec fn count_set(s: Seq<bool>) -> nat
    decreases s.len(),
{
    if s.len() == 0 {
        0
    } else {
        count_set(s.drop_last()) + if s.last() {
            1nat
        } else {
            0nat
        }
    }
}

/// A bitmap of `len` bits.
pub struct FlexBitmap {
    len: usize,
    map: Vec<u64>,
}

proof fn lemma_bit_set(w: u64, b: u64, c: u64)
    requires
        b < 64,
        c < 64,
    ensures
        ((w | (1u64 << b)) >> c) & 1u64 == (if c == b {
            1u64
        } else {
            (w >> c) & 1u64
        }),
{
    assert(((w | (1u64 << b)) >> c) & 1u64 == (if c == b {
        1u64
    } else {
        (w >> c) & 1u64
    })) by (bit_vector)
        requires
            b < 64,
            c < 64,
    ;
}

proof fn lemma_bit_unset(w: u64, b: u64, c: u64)
    requires
        b < 64,
        c < 64,
    ensures
        ((w & !(1u64 << b)) >> c) & 1u64 == (if c == b {
            0u64
        } else {
            (w >> c) & 1u64
        }),
{
    assert(((w & !(1u64 << b)) >> c) & 1u64 == (if c == b {
        0u64
    } else {
        (w >> c) & 1u64
    })) by (bit_vector)
        requires
            b < 64,
            c < 64,
    ;
}

proof fn lemma_bit_range(w: u64, c: u64)
    requires
        c < 64,
    ensures
        (w >> c) & 1u64 == 0u64 || (w >> c) & 1u64 == 1u64,
{
    assert((w >> c) & 1u64 == 0u64 || (w >> c) & 1u64 == 1u64) by (bit_vector)
        requires
            c < 64,
    ;
}

proof fn lemma_bit_full_and_empty(c: u64)
    requires
        c < 64,
    ensures
        (0xffff_ffff_ffff_ffffu64 >> c) & 1u64 == 1u64,
        (0u64 >> c) & 1u64 == 0u64,
{
    assert((0xffff_ffff_ffff_ffffu64 >> c) & 1u64 == 1u64) by (bit_vector)
        requires
            c < 64,
    ;
    assert((0u64 >> c) & 1u64 == 0u64) by (bit_vector);
}

proof fn lemma_bit_low_mask(k: u64, c: u64)
    requires
        0 < k < 64,
        c < 64,
    ensures
        (((1u64 << k) - 1) as u64 >> c) & 1u64 == (if c < k {
            1u64
        } else {
            0u64
        }),
{
    assert((((1u64 << k) - 1) as u64 >> c) & 1u64 == (if c < k {
        1u64
    } else {
        0u64
    })) by (bit_vector)
        requires
            0 < k < 64,
            c < 64,
    ;
}

/// Position `i` lies in word `i / 64` at bit `i % 64`, and word `w`, bit `c`
/// is position `64 * w + c`.
proof fn lemma_split(i: int, w: int, c: int)
    requires
        i >= 0,
        0 <= c < 64,
        i == 64 * w + c,
    ensures
        i / 64 == w,
        i % 64 == c,
{
}

proof fn lemma_count_all(s: Seq<bool>, v: bool)
    requires
        forall|i: int| 0 <= i < s.len() ==> s[i] == v,
    ensures
        count_set(s) == (if v {
            s.len()
        } else {
            0
        }),
    decreases s.len(),
{
    if s.len() > 0 {
        lemma_count_all(s.drop_last(), v);
    }
}

proof fn lemma_count_bound(s: Seq<bool>)
    ensures
        count_set(s) <= s.len(),
    decreases s.len(),
{
    if s.len() > 0 {
        lemma_count_bound(s.drop_last());
    }
}

impl View for FlexBitmap {
    type V = Seq<bool>;

    /// The bits, in order.
    closed spec fn view(&self) -> Seq<bool> {
        Seq::new(self.len as nat, |i: int| words_bit(self.map@, i))
    }
}

impl FlexBitmap {
    /// The words are as many as the bits need, and the bits of the last word
    /// past the length are 0.
    pub closed spec fn wf(&self) -> bool {
        &&& self.map@.len() == words_for(self.len as int)
        &&& forall|i: int|
            self.len <= i < 64 * self.map@.len() ==> !#[trigger] words_bit(self.map@, i)
    }

    /// The words that store the bits.
    pub closed spec fn words(&self) -> Seq<u64> {
        self.map@
    }

    /// How the bits are laid out in the words.
    pub proof fn lemma_layout(&self)
        requires
            self.wf(),
        ensures
            self@.len() <= usize::MAX,
            self.words().len() == words_for(self@.len() as int),
            forall|i: int| 0 <= i < self@.len() ==> self@[i] == words_bit(self.words(), i),
            forall|i: int|
                self@.len() <= i < 64 * self.words().len() ==> !#[trigger] words_bit(
                    self.words(),
                    i,
                ),
    {
    }

    /// A bitmap of `len` bits, all clear.
    pub fn new(len: usize) -> (r: FlexBitmap)
        ensures
            r.wf(),
            r@ == Seq::new(len as nat, |i: int| false),
    {
        let n = len / 64 + if len % 64 != 0 {
            1usize
        } else {
            0usize
        };
        let mut map: Vec<u64> = Vec::new();
        let mut w: usize = 0;
        while w < n
            invariant
                w <= n,
                map@.len() == w,
                forall|j: int| 0 <= j < w ==> map@[j] == 0u64,
            decreases n - w,
        {
            map.push(0u64);
            w = w + 1;
        }
        let r = FlexBitmap { len, map };
        proof {
            assert forall|i: int| 0 <= i < 64 * r.map@.len() implies !#[trigger] words_bit(
                r.map@,
                i,
            ) by {
                lemma_bit_full_and_empty((i % 64) as u64);
            }
            assert(r@ =~= Seq::new(len as nat, |i: int| false));
        }
        r
    }

    /// Number of bits.
    pub fn bit_len(&self) -> (r: usize)
        ensures
            r == self@.len(),
    {
        self.len
    }

    /// Number of words that store the bits.
    pub fn vec_len(&self) -> (r: usize)
        requires
            self.wf(),
        ensures
            r == self.words().len(),
            r == words_for(self@.len() as int),
    {
        self.map.len()
    }

    /// The words that store the bits.
    pub fn slice(&self) -> (r: &[u64])
        ensures
            r@ == self.words(),
    {
        self.map.as_slice()
    }

    /// Bit `bit`, as 1 or 0.
    pub fn get(&self, bit: usize) -> (r: usize)
        requires
            self.wf(),
            bit < self@.len(),
        ensures
            r == (if self@[bit as int] {
                1usize
            } else {
                0usize
            }),
    {
        let w = self.map[bit / 64];
        proof {
            lemma_bit_range(w, (bit % 64) as u64);
        }
        if (w >> ((bit % 64) as u64)) & 1u64 == 1u64 {
            1
        } else {
            0
        }
    }

    /// Sets bit `bit` to `val`; the other bits keep their values.
    pub fn set(&mut self, bit: usize, val: bool)
        requires
            old(self).wf(),
            bit < old(self)@.len(),
        ensures
            final(self).wf(),
            final(self)@ == old(self)@.update(bit as int, val),
    {
        let wi = bit / 64;
        let b = (bit % 64) as u64;
        let w = self.map[wi];
        let nw = if val {
            w | (1u64 << b)
        } else {
            w & !(1u64 << b)
        };
        self.map.set(wi, nw);
        proof {
            let om = old(self).map@;
            assert forall|i: int| 0 <= i < 64 * self.map@.len() implies #[trigger] words_bit(
                self.map@,
                i,
            ) == (if i == bit {
                val
            } else {
                words_bit(om, i)
            }) by {
                lemma_split(i, i / 64, i % 64);
                if i / 64 == wi {
                    if val {
                        lemma_bit_set(w, b, (i % 64) as u64);
                    } else {
                        lemma_bit_unset(w, b, (i % 64) as u64);
                    }
                    if i % 64 == b {
                        lemma_split(bit as int, wi as int, b as int);
                    } else {
                        assert(i != bit);
                    }
                } else {
                    assert(i != bit);
                }
            }
            assert(self@ =~= old(self)@.update(bit as int, val));
        }
    }

    /// Clears every bit.
    pub fn clear(&mut self)
        requires
            old(self).wf(),
        ensures
            final(self).wf(),
            final(self)@ == Seq::new(old(self)@.len(), |i: int| false),
    {
        let n = self.map.len();
        let mut w: usize = 0;
        while w < n
            invariant
                old(self).wf(),
                self.len == old(self).len,
                self.map@.len() == n,
                n == old(self).map@.len(),
                w <= n,
                forall|j: int| 0 <= j < w ==> self.map@[j] == 0u64,
            decreases n - w,
        {
            self.map.set(w, 0u64);
            w = w + 1;
        }
        proof {
            assert forall|i: int| 0 <= i < 64 * self.map@.len() implies !#[trigger] words_bit(
                self.map@,
                i,
            ) by {
                lemma_bit_full_and_empty((i % 64) as u64);
            }
            assert(self@ =~= Seq::new(old(self)@.len(), |i: int| false));
        }
    }

    /// Sets every bit.
    pub fn init_dirty(&mut self)
        requires
            old(self).wf(),
        ensures
            final(self).wf(),
            final(self)@ == Seq::new(old(self)@.len(), |i: int| true),
    {
        let n = self.map.len();
        let len = self.len;
        let tail = len % 64;
        let mut w: usize = 0;
        while w < n
            invariant
                self.len == len,
                self.map@.len() == n,
                n == words_for(len as int),
                tail == len % 64,
                w <= n,
                forall|j: int| 0 <= j < 64 * w ==> #[trigger] words_bit(self.map@, j) == (j < len),
            decreases n - w,
        {
            proof {
                let t = tail as u64;
                assert((1u64 << t) >= 1) by (bit_vector)
                    requires
                        t < 64,
                ;
            }
            let v = if w + 1 == n && tail != 0 {
                ((1u64 << (tail as u64)) - 1) as u64
            } else {
                0xffff_ffff_ffff_ffffu64
            };
            let ghost before = self.map@;
            self.map.set(w, v);
            proof {
                assert forall|j: int| 0 <= j < 64 * (w + 1) implies #[trigger] words_bit(
                    self.map@,
                    j,
                ) == (j < len) by {
                    lemma_split(j, j / 64, j % 64);
                    if j / 64 == w {
                        let c = (j % 64) as u64;
                        if w + 1 == n && tail != 0 {
                            lemma_bit_low_mask(tail as u64, c);
                        } else {
                            lemma_bit_full_and_empty(c);
                        }
                    } else {
                        assert(words_bit(before, j) == (j < len));
                    }
                }
            }
            w = w + 1;
        }
        proof {
            assert(self@ =~= Seq::new(old(self)@.len(), |i: int| true));
        }
    }

    /// Number of set bits.
    pub fn sum(&self) -> (r: usize)
        requires
            self.wf(),
        ensures
            r == count_set(self@),
    {
        let mut s: usize = 0;
        let mut i: usize = 0;
        while i < self.len
            invariant
                self.wf(),
                i <= self.len,
                s == count_set(self@.take(i as int)),
            decreases self.len - i,
        {
            proof {
                lemma_count_bound(self@.take(i as int));
                assert(self@.take(i as int + 1).drop_last() =~= self@.take(i as int));
            }
            if self.get(i) == 1 {
                s = s + 1;
            }
            i = i + 1;
        }
        proof {
            assert(self@.take(i as int) =~= self@);
        }
        s
    }
}

/// Setting a bit and reading it back gives the value written, and no other
/// bit changes.
pub proof fn lemma_set_then_get(before: Seq<bool>, after: Seq<bool>, bit: int, val: bool)
    requires
        0 <= bit < before.len(),
        after == before.update(bit, val),
    ensures
        after[bit] == val,
        forall|j: int| 0 <= j < before.len() && j != bit ==> after[j] == before[j],
        count_set(after) <= after.len(),
{
    lemma_count_bound(after);
}

/// A cleared bitmap counts no set bit; a fully dirtied one counts all its bits.
pub proof fn lemma_sum_after_clear_and_dirty(len: nat)
    ensures
        count_set(Seq::new(len, |i: int| false)) == 0,
        count_set(Seq::new(len, |i: int| true)) == len,
{
    lemma_count_all(Seq::new(len, |i: int| false), false);
    lemma_count_all(Seq::new(len, |i: int| true), true);
}

} // verus!
