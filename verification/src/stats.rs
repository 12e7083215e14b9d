//! Statistics engine: distribution statistics over a sequence of latency
//! measurements in whole milliseconds.
//!
//! The engine computes min, max, mean, median, 95th and 99th percentile.
//! The three quantiles use the nearest-rank rule: with the values in
//! ascending order and `m` of them, quantile `q` is the value at index
//! `round(q * (m - 1))`, where a fractional part of exactly one half rounds
//! up (away from zero). Quantiles `q = num / den` are given as integer
//! numerator and denominator, so the rounded index is
//! `(2 * num * (m - 1) + den) / (2 * den)` with integer division.
//!
//! The mean is kept exact as a numerator (the sum of all values) and a
//! denominator (the number of values): `mean = mean_num_ms / sample_count`.
//!
//! All statistics depend only on the multiset of values, not on their order.
//! Latencies are whole milliseconds as the timer reports them, so every
//! value is numeric; the only degenerate input is the empty sequence, which
//! has no statistics and is rejected as an error rather than answered with
//! fabricated values.

use vstd::prelude::*;
use vstd::arithmetic::div_mod::lemma_div_pos_is_pos;
use vstd::arithmetic::div_mod::lemma_multiply_divide_le;
use vstd::arithmetic::div_mod::lemma_multiply_divide_lt;
use vstd::multiset::group_multiset_axioms;
use vstd::relations::sorted_by;
use vstd::relations::total_ordering;
use vstd::seq_lib::group_to_multiset_ensures;
use vstd::seq_lib::lemma_sorted_unique;

verus! {

/// The values of `s` are in ascending order.
pub open spec fn ascending(s: Seq<u64>) -> bool {
    forall|i: int, j: int| 0 <= i <= j < s.len() ==> s[i] <= s[j]
}

/// The order the engine sorts by: numeric `<=` on milliseconds.
pub open spec fn latency_leq() -> spec_fn(u64, u64) -> bool {
    |x: u64, y: u64| x <= y
}

/// The values of `s`, rearranged into ascending order. Two sequences with
/// the same multiset of values have the same `ascending_of` sequence.
pub open spec fn ascending_of(s: Seq<u64>) -> Seq<u64> {
    s.sort_by(latency_leq())
}

/// The sum of all values of `s`, as an unbounded integer.
pub open spec fn sum_of(s: Seq<u64>) -> int
    decreases s.len(),
{
    if s.len() == 0 {
        0
    } else {
        sum_of(s.drop_last()) + s.last()
    }
}

/// The nearest-rank index for quantile `num / den` among `m` ascending
/// values: `round((num / den) * (m - 1))`, halves rounding up.
pub open spec fn rank_index(num: int, den: int, m: int) -> int {
    (2 * num * (m - 1) + den) / (2 * den)
}

/// The nearest-rank quantile `num / den` of the values of `s`.
pub open spec fn quantile_of(s: Seq<u64>, num: int, den: int) -> u64 {
    ascending_of(s)[rank_index(num, den, s.len() as int)]
}

/// The smallest value of `s`.
pub open spec fn min_of(s: Seq<u64>) -> u64 {
    ascending_of(s).first()
}

/// The largest value of `s`.
pub open spec fn max_of(s: Seq<u64>) -> u64 {
    ascending_of(s).last()
}

/// The median of `s`: the nearest-rank quantile 1/2.
pub open spec fn median_of(s: Seq<u64>) -> u64 {
    quantile_of(s, 1, 2)
}

/// The 95th percentile of `s`: the nearest-rank quantile 19/20.
pub open spec fn p95_of(s: Seq<u64>) -> u64 {
    quantile_of(s, 19, 20)
}

/// The 99th percentile of `s`: the nearest-rank quantile 99/100.
pub open spec fn p99_of(s: Seq<u64>) -> u64 {
    quantile_of(s, 99, 100)
}

/// Numeric `<=` on `u64` is a total ordering.
proof fn lemma_latency_leq_total()
    ensures
        total_ordering(latency_leq()),
{
    let r = latency_leq();
    assert forall|x: u64, y: u64| #[trigger] r(x, y) || #[trigger] r(y, x) by {}
    assert forall|x: u64, y: u64| #[trigger] r(x, y) && #[trigger] r(y, x) implies x == y by {}
    assert forall|x: u64, y: u64, z: u64| #[trigger] r(x, y) && #[trigger] r(y, z) implies r(
        x,
        z,
    ) by {}
}

/// `ascending_of(s)` is an ascending rearrangement of `s`.
pub proof fn lemma_ascending_of_ensures(s: Seq<u64>)
    ensures
        ascending_of(s).to_multiset() == s.to_multiset(),
        ascending(ascending_of(s)),
        ascending_of(s).len() == s.len(),
{
    broadcast use group_to_multiset_ensures;

    lemma_latency_leq_total();
    s.lemma_sort_by_ensures(latency_leq());
    let t = ascending_of(s);
    assert(t.to_multiset().len() == t.len());
    assert(s.to_multiset().len() == s.len());
    assert(sorted_by(t, latency_leq()));
    assert forall|i: int, j: int| 0 <= i <= j < t.len() implies t[i] <= t[j] by {
        if i < j {
            assert(latency_leq()(t[i], t[j]));
        }
    }
}

/// An ascending rearrangement of a multiset of values is unique.
pub proof fn lemma_ascending_unique(a: Seq<u64>, b: Seq<u64>)
    requires
        ascending(a),
        ascending(b),
        a.to_multiset() == b.to_multiset(),
    ensures
        a == b,
{
    lemma_latency_leq_total();
    assert forall|i: int, j: int| 0 <= i < j < a.len() implies #[trigger] latency_leq()(
        a[i],
        a[j],
    ) by {
        assert(a[i] <= a[j]);
    }
    assert forall|i: int, j: int| 0 <= i < j < b.len() implies #[trigger] latency_leq()(
        b[i],
        b[j],
    ) by {
        assert(b[i] <= b[j]);
    }
    lemma_sorted_unique(a, b, latency_leq());
}

/// The sum of values all lying between `lo` and `hi` lies between
/// `lo * len` and `hi * len`.
pub proof fn lemma_sum_of_bounds(s: Seq<u64>, lo: int, hi: int)
    requires
        forall|i: int| 0 <= i < s.len() ==> lo <= #[trigger] s[i] <= hi,
    ensures
        lo * s.len() <= sum_of(s) <= hi * s.len(),
    decreases s.len(),
{
    if s.len() == 0 {
    } else {
        let d = s.drop_last();
        assert(forall|i: int| 0 <= i < d.len() ==> lo <= #[trigger] d[i] <= hi);
        lemma_sum_of_bounds(d, lo, hi);
        assert(lo <= s.last() <= hi);
        assert(lo * (s.len() - 1) + lo == lo * s.len()) by (nonlinear_arith);
        assert(hi * (s.len() - 1) + hi == hi * s.len()) by (nonlinear_arith);
    }
}

/// Removing the value at index `j` lowers the sum by exactly that value.
proof fn lemma_sum_of_remove(s: Seq<u64>, j: int)
    requires
        0 <= j < s.len(),
    ensures
        sum_of(s.remove(j)) == sum_of(s) - s[j],
    decreases s.len(),
{
    if j == s.len() - 1 {
        assert(s.remove(j) =~= s.drop_last());
    } else {
        let d = s.drop_last();
        lemma_sum_of_remove(d, j);
        assert(s.remove(j).drop_last() =~= d.remove(j));
        assert(s.remove(j).last() == s.last());
    }
}

/// The sum depends only on the multiset of values, not on their order.
pub proof fn lemma_sum_of_permutation(a: Seq<u64>, b: Seq<u64>)
    requires
        a.to_multiset() == b.to_multiset(),
    ensures
        sum_of(a) == sum_of(b),
    decreases a.len(),
{
    broadcast use group_to_multiset_ensures;
    broadcast use group_multiset_axioms;

    if a.len() == 0 {
        assert(a.to_multiset().len() == a.len());
        assert(b.to_multiset().len() == b.len());
        assert(b.len() == 0);
    } else {
        let x = a.last();
        assert(a[a.len() - 1] == x);
        assert(a.contains(x));
        assert(a.to_multiset().count(x) > 0);
        assert(b.contains(x));
        let j = choose|j: int| 0 <= j < b.len() && b[j] == x;
        assert(a.drop_last().push(x) =~= a);
        assert(a.drop_last().to_multiset().insert(x) == a.to_multiset());
        assert(b.remove(j).to_multiset() == b.to_multiset().remove(x));
        assert(a.drop_last().to_multiset() == a.to_multiset().remove(x));
        lemma_sum_of_remove(b, j);
        lemma_sum_of_permutation(a.drop_last(), b.remove(j));
    }
}

/// The nearest-rank index for a quantile between 0 and 1 is a valid index
/// into a sequence of `m` values.
pub proof fn lemma_rank_index_in_range(num: int, den: int, m: int)
    requires
        0 <= num <= den,
        1 <= den,
        1 <= m,
    ensures
        0 <= rank_index(num, den, m) < m,
{
    let a = 2 * num * (m - 1) + den;
    let b = 2 * den;
    assert(0 <= 2 * num * (m - 1)) by (nonlinear_arith)
        requires
            0 <= num,
            1 <= m,
    ;
    lemma_div_pos_is_pos(a, b);
    assert(a < b * m) by (nonlinear_arith)
        requires
            0 <= num <= den,
            1 <= den,
            1 <= m,
            a == 2 * num * (m - 1) + den,
            b == 2 * den,
    ;
    lemma_multiply_divide_lt(a, b, m);
}

/// Taking one more element appends exactly that element to the multiset.
proof fn lemma_take_step_multiset(s: Seq<u64>, i: int)
    requires
        0 <= i < s.len(),
    ensures
        s.take(i + 1).to_multiset() == s.take(i).to_multiset().insert(s[i]),
{
    broadcast use group_to_multiset_ensures;

    assert(s.take(i + 1) =~= s.take(i).push(s[i]));
}

/// The first position in ascending `v` whose value is above `x`: every value
/// before it is at most `x`, every value from it on is above `x`.
fn lower_insert_pos(v: &Vec<u64>, x: u64) -> (p: usize)
    requires
        ascending(v@),
    ensures
        p <= v@.len(),
        forall|k: int| 0 <= k < p ==> v@[k] <= x,
        forall|k: int| p <= k < v@.len() ==> v@[k] > x,
{
    let mut p: usize = 0;
    while p < v.len() && v[p] <= x
        invariant
            p <= v@.len(),
            forall|k: int| 0 <= k < p ==> v@[k] <= x,
            ascending(v@),
        decreases v@.len() - p,
    {
        p = p + 1;
    }
    if p < v.len() {
        assert forall|k: int| p <= k < v@.len() implies v@[k] > x by {
            assert(v@[p as int] <= v@[k]);
        }
    }
    p
}

/// Inserts `x` into the ascending vector `v`, keeping it ascending.
fn insert_ascending(v: &mut Vec<u64>, x: u64)
    requires
        ascending(old(v)@),
        old(v)@.len() < usize::MAX,
    ensures
        ascending(final(v)@),
        final(v)@.to_multiset() == old(v)@.to_multiset().insert(x),
        final(v)@.len() == old(v)@.len() + 1,
{
    let p: usize = lower_insert_pos(v, x);
    v.insert(p, x);
    proof {
        broadcast use group_to_multiset_ensures;

        let t = v@;
        let s = old(v)@;
        assert(t == s.insert(p as int, x));
        assert forall|i: int, j: int| 0 <= i <= j < t.len() implies t[i] <= t[j] by {
            if j < p {
                assert(t[i] == s[i] && t[j] == s[j]);
            } else if i > p {
                assert(t[i] == s[i - 1] && t[j] == s[j - 1]);
            } else if i == p && j == p {
            } else if i < p && j == p {
                assert(t[i] == s[i] && s[i] <= x);
            } else if i == p && j > p {
                assert(t[j] == s[j - 1] && x < s[j - 1]);
            } else {
                assert(i < p && j > p);
                assert(t[i] == s[i] && t[j] == s[j - 1]);
                assert(s[i] <= x && x < s[j - 1]);
            }
        }
    }
}

/// Sums the values of `v`; the total of `u64` values always fits in `u128`.
fn sum_latencies(v: &Vec<u64>) -> (total: u128)
    ensures
        total == sum_of(v@),
{
    let mut total: u128 = 0;
    let mut i: usize = 0;
    while i < v.len()
        invariant
            i <= v@.len(),
            total == sum_of(v@.take(i as int)),
        decreases v@.len() - i,
    {
        proof {
            lemma_sum_of_bounds(v@.take(i as int), 0, u64::MAX as int);
            assert(v@.take(i as int).len() == i as int);
            assert(sum_of(v@.take(i as int)) + v@[i as int] <= u128::MAX) by (nonlinear_arith)
                requires
                    sum_of(v@.take(i as int)) <= u64::MAX as int * (i as int),
                    0 <= v@[i as int] <= u64::MAX as int,
                    0 <= i as int <= u64::MAX as int,
            ;
        }
        let x: u64 = v[i];
        total = total + (x as u128);
        proof {
            assert(v@.take(i as int + 1).drop_last() =~= v@.take(i as int));
            assert(v@.take(i as int + 1).last() == v@[i as int]);
        }
        i = i + 1;
    }
    proof {
        assert(v@.take(v@.len() as int) =~= v@);
    }
    total
}

/// Picks the nearest-rank quantile `num / den` from the ascending vector `v`.
fn nearest_rank_pick(v: &Vec<u64>, num: u32, den: u32) -> (r: u64)
    requires
        ascending(v@),
        1 <= v@.len(),
        1 <= den,
        num <= den,
    ensures
        r == v@[rank_index(num as int, den as int, v@.len() as int)],
{
    let m: usize = v.len();
    proof {
        lemma_rank_index_in_range(num as int, den as int, m as int);
        assert((2 * (num as int)) * ((m as int) - 1) + den as int <= u128::MAX) by (nonlinear_arith)
            requires
                0 <= num as int <= 0xffff_ffff,
                0 <= den as int <= 0xffff_ffff,
                0 <= (m as int) - 1 <= 0xffff_ffff_ffff_ffff,
        ;
    }
    let num2: u128 = 2 * (num as u128);
    let prod: u128 = num2 * ((m as u128) - 1);
    let numerator: u128 = prod + (den as u128);
    let denominator: u128 = 2 * (den as u128);
    let idx128: u128 = numerator / denominator;
    proof {
        assert(idx128 == rank_index(num as int, den as int, m as int));
        assert(idx128 < m as u128);
    }
    let idx: usize = idx128 as usize;
    v[idx]
}

/// For any non-empty latency sequence, the median and both percentiles lie
/// between the minimum and the maximum, and so does the mean: the sum lies
/// between `min * len` and `max * len`, so `min <= sum / len <= max`.
pub proof fn lemma_summary_bounds(s: Seq<u64>)
    requires
        1 <= s.len(),
    ensures
        min_of(s) <= median_of(s) <= max_of(s),
        min_of(s) <= p95_of(s) <= max_of(s),
        min_of(s) <= p99_of(s) <= max_of(s),
        min_of(s) * s.len() <= sum_of(s) <= max_of(s) * s.len(),
{
    let t = ascending_of(s);
    lemma_ascending_of_ensures(s);
    let m = s.len() as int;
    lemma_rank_index_in_range(1, 2, m);
    lemma_rank_index_in_range(19, 20, m);
    lemma_rank_index_in_range(99, 100, m);
    assert(t[0] <= t[rank_index(1, 2, m)] <= t[m - 1]);
    assert(t[0] <= t[rank_index(19, 20, m)] <= t[m - 1]);
    assert(t[0] <= t[rank_index(99, 100, m)] <= t[m - 1]);
    assert forall|k: int| 0 <= k < t.len() implies min_of(s) as int <= #[trigger] t[k] <= max_of(
        s,
    ) as int by {
        assert(t[0] <= t[k]);
        assert(t[k] <= t[t.len() - 1]);
    }
    lemma_sum_of_bounds(t, min_of(s) as int, max_of(s) as int);
    lemma_sum_of_permutation(s, t);
}

/// For a sequence of identical values `v`, every statistic equals `v`;
/// in particular the sum is `v * len`, so the mean is exactly `v`.
pub proof fn lemma_identical_values(s: Seq<u64>, v: u64)
    requires
        1 <= s.len(),
        forall|i: int| 0 <= i < s.len() ==> #[trigger] s[i] == v,
    ensures
        min_of(s) == v,
        max_of(s) == v,
        median_of(s) == v,
        p95_of(s) == v,
        p99_of(s) == v,
        sum_of(s) == v * s.len(),
{
    broadcast use group_to_multiset_ensures;

    let t = ascending_of(s);
    lemma_ascending_of_ensures(s);
    assert forall|k: int| 0 <= k < t.len() implies #[trigger] t[k] == v by {
        assert(t.contains(t[k]));
        assert(t.to_multiset().count(t[k]) > 0);
        assert(s.contains(t[k]));
    }
    let m = s.len() as int;
    lemma_rank_index_in_range(1, 2, m);
    lemma_rank_index_in_range(19, 20, m);
    lemma_rank_index_in_range(99, 100, m);
    assert forall|k: int| 0 <= k < s.len() implies v as int <= #[trigger] s[k] <= v as int by {}
    lemma_sum_of_bounds(s, v as int, v as int);
}

/// Statistics are permutation invariant: two sequences with the same
/// multiset of values have identical statistics.
pub proof fn lemma_permutation_invariant(a: Seq<u64>, b: Seq<u64>)
    requires
        a.to_multiset() == b.to_multiset(),
    ensures
        a.len() == b.len(),
        min_of(a) == min_of(b),
        max_of(a) == max_of(b),
        median_of(a) == median_of(b),
        p95_of(a) == p95_of(b),
        p99_of(a) == p99_of(b),
        sum_of(a) == sum_of(b),
{
    broadcast use group_to_multiset_ensures;

    assert(a.to_multiset().len() == a.len());
    assert(b.to_multiset().len() == b.len());
    lemma_ascending_of_ensures(a);
    lemma_ascending_of_ensures(b);
    lemma_ascending_unique(ascending_of(a), ascending_of(b));
    lemma_sum_of_permutation(a, b);
}

/// A single measurement is its own min, max, mean, median and percentiles.
pub proof fn lemma_single_sample(s: Seq<u64>)
    requires
        s.len() == 1,
    ensures
        min_of(s) == s[0],
        max_of(s) == s[0],
        median_of(s) == s[0],
        p95_of(s) == s[0],
        p99_of(s) == s[0],
        sum_of(s) == s[0],
{
    lemma_identical_values(s, s[0]);
}

/// The reason the statistics engine can refuse an input.
#[derive(Clone, Copy, Debug, PartialEq, Eq, Structural)]
pub enum StatsError {
    /// There is no value to aggregate: statistics over an empty sequence
    /// are undefined and must not be fabricated.
    EmptySampleSet,
}

/// Summary statistics of a non-empty latency sequence, all in milliseconds.
///
/// The mean is exact: `mean = mean_num_ms / sample_count`, where
/// `mean_num_ms` is the sum of all values and `sample_count` how many there
/// are. The other five fields are values taken from the input itself.
#[derive(Clone, Copy, Debug, PartialEq, Eq, Structural)]
pub struct StatisticsSummary {
    /// The smallest value.
    pub min_ms: u64,
    /// The largest value.
    pub max_ms: u64,
    /// The numerator of the exact mean: the sum of all values.
    pub mean_num_ms: u128,
    /// The denominator of the exact mean: the number of values.
    pub sample_count: usize,
    /// Nearest-rank quantile 1/2.
    pub median_ms: u64,
    /// Nearest-rank quantile 19/20.
    pub p95_ms: u64,
    /// Nearest-rank quantile 99/100.
    pub p99_ms: u64,
}

impl StatisticsSummary {
    /// A summary is well formed when it covers at least one value and its
    /// mean lies between its minimum and its maximum.
    pub open spec fn valid(self) -> bool {
        &&& 1 <= self.sample_count
        &&& self.min_ms as int * self.sample_count as int <= self.mean_num_ms as int
        &&& self.mean_num_ms as int <= self.max_ms as int * self.sample_count as int
    }

    /// The mean rounded down to whole milliseconds.
    pub fn mean_floor_ms(&self) -> (r: u64)
        requires
            self.valid(),
        ensures
            r == self.mean_num_ms as int / self.sample_count as int,
    {
        proof {
            lemma_multiply_divide_le(
                self.mean_num_ms as int,
                self.sample_count as int,
                self.max_ms as int,
            );
        }
        let q: u128 = self.mean_num_ms / (self.sample_count as u128);
        q as u64
    }
}

/// Computes the summary statistics of `latencies`.
///
/// Fails exactly on an empty input; for a non-empty input every field of the
/// summary is the corresponding statistic of the input sequence.
pub fn summarize(latencies: &Vec<u64>) -> (r: Result<StatisticsSummary, StatsError>)
    ensures
        (r is Ok) <==> 1 <= latencies@.len(),
        r is Err ==> r == Err::<StatisticsSummary, StatsError>(StatsError::EmptySampleSet),
        r is Ok ==> (r->Ok_0).min_ms == min_of(latencies@),
        r is Ok ==> (r->Ok_0).max_ms == max_of(latencies@),
        r is Ok ==> (r->Ok_0).mean_num_ms == sum_of(latencies@),
        r is Ok ==> (r->Ok_0).sample_count == latencies@.len(),
        r is Ok ==> (r->Ok_0).median_ms == median_of(latencies@),
        r is Ok ==> (r->Ok_0).p95_ms == p95_of(latencies@),
        r is Ok ==> (r->Ok_0).p99_ms == p99_of(latencies@),
        r is Ok ==> (r->Ok_0).valid(),
{
    let n: usize = latencies.len();
    if n == 0 {
        return Err(StatsError::EmptySampleSet);
    }
    let mut sorted_vals: Vec<u64> = Vec::new();
    proof {
        assert(sorted_vals@ =~= latencies@.take(0));
    }
    let mut i: usize = 0;
    while i < n
        invariant
            n == latencies@.len(),
            i <= n,
            ascending(sorted_vals@),
            sorted_vals@.len() == i,
            sorted_vals@.to_multiset() == latencies@.take(i as int).to_multiset(),
        decreases n - i,
    {
        let x: u64 = latencies[i];
        insert_ascending(&mut sorted_vals, x);
        proof {
            lemma_take_step_multiset(latencies@, i as int);
        }
        i = i + 1;
    }
    proof {
        assert(latencies@.take(n as int) =~= latencies@);
        lemma_ascending_of_ensures(latencies@);
        lemma_ascending_unique(sorted_vals@, ascending_of(latencies@));
        lemma_sum_of_permutation(sorted_vals@, latencies@);
    }
    let min: u64 = sorted_vals[0];
    let max: u64 = sorted_vals[n - 1];
    let median: u64 = nearest_rank_pick(&sorted_vals, 1, 2);
    let p95: u64 = nearest_rank_pick(&sorted_vals, 19, 20);
    let p99: u64 = nearest_rank_pick(&sorted_vals, 99, 100);
    let total: u128 = sum_latencies(&sorted_vals);
    proof {
        let t = sorted_vals@;
        assert forall|k: int| 0 <= k < t.len() implies min as int <= #[trigger] t[k] <= max as int by {
            assert(t[0] <= t[k]);
            assert(t[k] <= t[t.len() - 1]);
        }
        lemma_sum_of_bounds(t, min as int, max as int);
    }
    Ok(
        StatisticsSummary {
            min_ms: min,
            max_ms: max,
            mean_num_ms: total,
            sample_count: n,
            median_ms: median,
            p95_ms: p95,
            p99_ms: p99,
        },
    )
}

} // verus!
