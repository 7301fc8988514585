//! Percentage bookkeeping for a streaming transfer.
//!
//! A transfer with a known total size reports progress as a monotonically
//! non-decreasing percentage in `[0, 100]`; only the increase (the delta)
//! since the previous report is ever emitted.  When the total is unknown no
//! percentage exists and nothing is ever emitted.

use vstd::prelude::*;
use vstd::arithmetic::div_mod::{lemma_div_is_ordered, lemma_div_multiples_vanish, lemma_div_pos_is_pos};
use vstd::arithmetic::mul::lemma_mul_inequality;

verus! {

/// The percentage completed after `bytes` of `total` bytes have arrived:
/// `floor(bytes * 100 / total)`, clamped to 100 when a server sends more
/// bytes than it advertised.  A non-positive total carries no information,
/// so the percentage stays 0.
pub open spec fn percent_of(bytes: int, total: int) -> int {
    if total <= 0 {
        0
    } else if bytes * 100 / total > 100 {
        100
    } else {
        bytes * 100 / total
    }
}

pub proof fn lemma_percent_of_bounds(bytes: int, total: int)
    requires
        bytes >= 0,
    ensures
        0 <= percent_of(bytes, total) <= 100,
{
    if total > 0 {
        lemma_mul_inequality(0, bytes, 100);
        lemma_div_is_ordered(0, bytes * 100, total);
    }
}

pub proof fn lemma_percent_of_monotonic(b1: int, b2: int, total: int)
    requires
        0 <= b1 <= b2,
    ensures
        percent_of(b1, total) <= percent_of(b2, total),
{
    if total > 0 {
        lemma_mul_inequality(b1, b2, 100);
        lemma_div_is_ordered(b1 * 100, b2 * 100, total);
        lemma_percent_of_bounds(b1, total);
        lemma_percent_of_bounds(b2, total);
    }
}

/// Once every advertised byte has arrived, the percentage is exactly 100.
pub proof fn lemma_percent_of_complete(total: int)
    requires
        total > 0,
    ensures
        percent_of(total, total) == 100,
{
    lemma_div_multiples_vanish(100, total);
    assert(total * 100 == 100 * total) by (nonlinear_arith);
}

/// Addition on the byte counter, saturating at `u64::MAX` so that a stream
/// longer than the counter can hold never wraps around.
pub open spec fn sat_add_u64(a: int, b: int) -> int {
    if a + b > u64::MAX {
        u64::MAX as int
    } else {
        a + b
    }
}

/// Running progress state of one transfer: the advertised total (if any),
/// the bytes received so far, and the last percentage that was reported.
pub struct ProgressTracker {
    total: Option<u64>,
    bytes: u64,
    percent: u32,
}

impl ProgressTracker {
    pub closed spec fn total_spec(self) -> Option<u64> {
        self.total
    }

    pub closed spec fn bytes_spec(self) -> int {
        self.bytes as int
    }

    pub closed spec fn percent_spec(self) -> int {
        self.percent as int
    }

    /// The reported percentage is always exactly the percentage that the
    /// received bytes warrant; with no advertised total it stays 0.
    pub closed spec fn wf(self) -> bool {
        match self.total {
            Some(t) => self.percent == percent_of(self.bytes as int, t as int),
            None => self.percent == 0 && self.bytes == 0,
        }
    }

    pub proof fn lemma_wf_percent_bounded(self)
        requires
            self.wf(),
        ensures
            0 <= self.percent_spec() <= 100,
    {
        match self.total {
            Some(t) => {
                lemma_percent_of_bounds(self.bytes as int, t as int);
            },
            None => {},
        }
    }

    pub fn new(total: Option<u64>) -> (r: Self)
        ensures
            r.wf(),
            r.total_spec() == total,
            r.bytes_spec() == 0,
            r.percent_spec() == 0,
    {
        proof {
            match total {
                Some(t) => {
                    if t > 0 {
                        lemma_div_pos_is_pos(0, t as int);
                        lemma_div_is_ordered(0, 0, t as int);
                        assert(0int * 100 == 0) by (nonlinear_arith);
                        assert(percent_of(0, t as int) == 0);
                    }
                },
                None => {},
            }
        }
        ProgressTracker { total, bytes: 0, percent: 0 }
    }

    /// Record the arrival of one chunk of `len` bytes.  Returns the increase
    /// in percentage since the previous report, if there is one; the chunk of
    /// a transfer with no advertised total never produces a delta.
    pub fn record(&mut self, len: usize) -> (d: Option<u32>)
        requires
            old(self).wf(),
        ensures
            final(self).wf(),
            final(self).total_spec() == old(self).total_spec(),
            match old(self).total_spec() {
                Option::None => *final(self) == *old(self) && d is None,
                Option::Some(t) => {
                    &&& final(self).bytes_spec() == sat_add_u64(old(self).bytes_spec(), len as int)
                    &&& final(self).percent_spec() == percent_of(final(self).bytes_spec(), t as int)
                    &&& (d is Some <==> final(self).percent_spec() > old(self).percent_spec())
                    &&& match d {
                        Option::Some(delta) => delta == final(self).percent_spec() - old(self).percent_spec()
                            && delta > 0,
                        Option::None => final(self).percent_spec() == old(self).percent_spec(),
                    }
                },
            },
    {
        match self.total {
            None => None,
            Some(t) => {
                let len64: u64 = len as u64;
                self.bytes = if self.bytes > u64::MAX - len64 {
                    u64::MAX
                } else {
                    self.bytes + len64
                };
                if t == 0 {
                    return None;
                }
                let next = compute_percent(self.bytes, t);
                proof {
                    lemma_percent_of_monotonic(old(self).bytes as int, self.bytes as int, t as int);
                }
                if next > self.percent {
                    let delta = next - self.percent;
                    self.percent = next;
                    Some(delta)
                } else {
                    None
                }
            },
        }
    }
}

/// The sum of a sequence of integers.
pub open spec fn sum_seq(s: Seq<int>) -> int
    decreases s.len(),
{
    if s.len() == 0 {
        0
    } else {
        sum_seq(s.drop_last()) + s.last()
    }
}

pub proof fn lemma_sum_seq_nonneg(s: Seq<int>)
    requires
        forall|i: int| 0 <= i < s.len() ==> s[i] >= 0,
    ensures
        sum_seq(s) >= 0,
    decreases s.len(),
{
    if s.len() > 0 {
        lemma_sum_seq_nonneg(s.drop_last());
    }
}

pub proof fn lemma_sum_take_le(s: Seq<int>, j: int)
    requires
        forall|i: int| 0 <= i < s.len() ==> s[i] >= 0,
        0 <= j <= s.len(),
    ensures
        sum_seq(s.take(j)) <= sum_seq(s),
    decreases s.len() - j,
{
    if j < s.len() {
        assert(s.take(j + 1).drop_last() =~= s.take(j));
        lemma_sum_take_le(s, j + 1);
    } else {
        assert(s.take(j) =~= s);
    }
}

/// The deltas a transfer with advertised total `total` emits while the
/// chunks of `lens` arrive: one entry for each chunk that raises the
/// percentage, holding the increase.
pub open spec fn delta_seq(lens: Seq<int>, total: int) -> Seq<int>
    decreases lens.len(),
{
    if lens.len() == 0 {
        Seq::empty()
    } else {
        let prev = delta_seq(lens.drop_last(), total);
        let before = percent_of(sum_seq(lens.drop_last()), total);
        let after = percent_of(sum_seq(lens), total);
        if after > before {
            prev.push(after - before)
        } else {
            prev
        }
    }
}

/// The emitted deltas always sum to exactly the percentage that the bytes
/// received so far warrant: cumulative progress is reported without gap or
/// repetition.
pub proof fn lemma_delta_seq_sum(lens: Seq<int>, total: int)
    requires
        total > 0,
        forall|i: int| 0 <= i < lens.len() ==> lens[i] >= 0,
    ensures
        sum_seq(delta_seq(lens, total)) == percent_of(sum_seq(lens), total),
    decreases lens.len(),
{
    if lens.len() == 0 {
        assert(percent_of(0, total) == 0) by {
            lemma_mul_inequality(0, 0, 100);
            vstd::arithmetic::div_mod::lemma_div_of0(total);
        }
    } else {
        let prev = delta_seq(lens.drop_last(), total);
        let before = percent_of(sum_seq(lens.drop_last()), total);
        let after = percent_of(sum_seq(lens), total);
        lemma_delta_seq_sum(lens.drop_last(), total);
        lemma_sum_seq_nonneg(lens.drop_last());
        lemma_percent_of_monotonic(sum_seq(lens.drop_last()), sum_seq(lens), total);
        if after > before {
            assert(delta_seq(lens, total) == prev.push(after - before));
            assert(prev.push(after - before).drop_last() =~= prev);
        }
    }
}

/// Every emitted delta is strictly positive: no percentage is ever
/// reported twice.
pub proof fn lemma_delta_seq_positive(lens: Seq<int>, total: int)
    ensures
        forall|i: int| 0 <= i < delta_seq(lens, total).len() ==> #[trigger] delta_seq(
            lens,
            total,
        )[i] > 0,
    decreases lens.len(),
{
    if lens.len() > 0 {
        lemma_delta_seq_positive(lens.drop_last(), total);
        let prev = delta_seq(lens.drop_last(), total);
        let before = percent_of(sum_seq(lens.drop_last()), total);
        let after = percent_of(sum_seq(lens), total);
        if after > before {
            assert(delta_seq(lens, total) == prev.push(after - before));
        }
    }
}

/// For chunk sizes that sum to the advertised total, the emitted deltas
/// sum to exactly 100.
pub proof fn lemma_full_transfer_deltas_sum_to_100(lens: Seq<int>, total: int)
    requires
        total > 0,
        forall|i: int| 0 <= i < lens.len() ==> lens[i] >= 0,
        sum_seq(lens) == total,
    ensures
        sum_seq(delta_seq(lens, total)) == 100,
{
    lemma_delta_seq_sum(lens, total);
    lemma_percent_of_complete(total);
}

/// `floor(bytes * 100 / total)` clamped to 100, computed without overflow.
fn compute_percent(bytes: u64, total: u64) -> (p: u32)
    requires
        total > 0,
    ensures
        p as int == percent_of(bytes as int, total as int),
{
    proof {
        lemma_mul_inequality(bytes as int, u64::MAX as int, 100);
        lemma_percent_of_bounds(bytes as int, total as int);
    }
    let wide: u128 = (bytes as u128) * 100 / (total as u128);
    if wide > 100 {
        100
    } else {
        wide as u32
    }
}

} // verus!
