//! The global CPU barrier: every CPU that arrives is counted, and waits until
//! the count reaches the next multiple of the number of CPUs.
use vstd::prelude::*;

verus! {

/// `value` rounded up to a multiple of `to`.
pub open spec fn round_up_spec(value: int, to: int) -> int {
    (value + to - 1) / to * to
}

/// `value` rounded up to a multiple of `to`.
pub fn round_up(value: usize, to: usize) -> (r: usize)
    requires
        to > 0,
        value + to <= usize::MAX,
    ensures
        r == round_up_spec(value as int, to as int),
{
    let q = (value + to - 1) / to;
    let ghost x: int = value + to - 1;
    let ghost t: int = to as int;
    assert(q * t <= x) by (nonlinear_arith)
        requires
            q == x / t,
            t > 0,
            x >= 0,
    ;
    q * to
}

/// The state all CPUs share for the barrier: a lock word, the number of CPUs
/// `n`, the number of arrivals so far, and whether the barrier is in use.
pub struct CpuSyncToken {
    pub lock: u32,
    pub n: usize,
    pub count: usize,
    pub ready: bool,
}

impl CpuSyncToken {
    /// A barrier for `n` CPUs, with no arrival yet.
    pub fn new(n: usize) -> (r: CpuSyncToken)
        ensures
            r.lock == 0,
            r.n == n,
            r.count == 0,
            r.ready,
    {
        CpuSyncToken { lock: 0, n, count: 0, ready: true }
    }

    /// A CPU arrives: it is counted, and the count it must wait for, the
    /// next multiple of the number of CPUs, is returned.
    pub fn barrier(&mut self) -> (next_count: usize)
        requires
            old(self).n > 0,
            old(self).count + 1 + old(self).n <= usize::MAX,
        ensures
            final(self).count == old(self).count + 1,
            final(self).n == old(self).n,
            final(self).lock == old(self).lock,
            final(self).ready == old(self).ready,
            next_count == round_up_spec(old(self).count + 1, old(self).n as int),
    {
        self.count = self.count + 1;
        round_up(self.count, self.n)
    }

    /// Whether a CPU waiting for `next_count` may go on.
    pub fn barrier_passed(&self, next_count: usize) -> (r: bool)
        ensures
            r == (self.count >= next_count),
    {
        self.count >= next_count
    }

    /// Counts one arrival without waiting.
    pub fn add_barrier_count(&mut self)
        requires
            old(self).count < usize::MAX,
        ensures
            final(self).count == old(self).count + 1,
            final(self).n == old(self).n,
            final(self).lock == old(self).lock,
            final(self).ready == old(self).ready,
    {
        self.count = self.count + 1;
    }
}

/// In a round that starts when the count is a multiple `m * n` of the number
/// of CPUs, every one of the `n` arrivals waits for the count `(m + 1) * n`,
/// which the last arrival reaches: the barrier releases all CPUs of the round
/// exactly when all of them have arrived.
pub proof fn lemma_barrier_round(m: int, n: int, j: int)
    requires
        m >= 0,
        n > 0,
        1 <= j <= n,
    ensures
        round_up_spec(m * n + j, n) == m * n + n,
        m * n + j >= m * n + n <==> j == n,
{
    assert((m * n + j + n - 1) / n == m + 1) by (nonlinear_arith)
        requires
            m >= 0,
            n > 0,
            1 <= j <= n,
    {
        assert(m * n + j + n - 1 == (m + 1) * n + (j - 1));
        assert(0 <= j - 1 < n);
    }
    assert((m + 1) * n == m * n + n) by (nonlinear_arith);
}

} // verus!
