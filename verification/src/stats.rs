//! Statistical aggregation over repeated timing samples.
//!
//! Samples are integer milliseconds. Derived statistics (mean, median,
//! standard deviation, percentiles, minimum, maximum) are fixed-point values
//! scaled by `STAT_SCALE`, i.e. thousandths of a millisecond, so that every
//! derived quantity has an exact integer definition.

use vstd::prelude::*;
use vstd::seq_lib::lemma_sorted_unique;
use vstd::relations::sorted_by;

verus! {

/// Largest number of timing samples one aggregation accepts; keeps every
/// fixed-point intermediate within `u128`.
pub const MAX_SAMPLES: usize = 1000000;

/// Largest accepted single sample, in milliseconds (about eleven days);
/// keeps every fixed-point intermediate within `u128`.
pub const MAX_SAMPLE_MS: u64 = 1000000000;

/// Fixed-point scale of derived statistics: three decimal digits.
pub const STAT_SCALE: u64 = 1000;

/// The ordering the aggregator sorts samples by.
pub open spec fn leq_u64() -> spec_fn(u64, u64) -> bool {
    |a: u64, b: u64| a <= b
}

/// The samples in ascending order.
pub open spec fn sorted_of(s: Seq<u64>) -> Seq<u64> {
    s.sort_by(leq_u64())
}

pub open spec fn is_sorted(s: Seq<u64>) -> bool {
    forall|i: int, j: int| 0 <= i <= j < s.len() ==> s[i] <= s[j]
}

pub open spec fn sum_of(s: Seq<u64>) -> int
    decreases s.len(),
{
    if s.len() == 0 {
        0
    } else {
        sum_of(s.drop_last()) + s.last()
    }
}

pub open spec fn sum_sq_of(s: Seq<u64>) -> int
    decreases s.len(),
{
    if s.len() == 0 {
        0
    } else {
        sum_sq_of(s.drop_last()) + s.last() * s.last()
    }
}

pub open spec fn all_bounded(s: Seq<u64>) -> bool {
    forall|i: int| 0 <= i < s.len() ==> s[i] <= MAX_SAMPLE_MS
}

/// `r` is the floor of the square root of `v`.
pub open spec fn is_sqrt_floor(v: int, r: int) -> bool {
    0 <= r && r * r <= v && v < (r + 1) * (r + 1)
}

proof fn lemma_sum_bounds(s: Seq<u64>)
    ensures
        0 <= sum_of(s),
        all_bounded(s) ==> sum_of(s) <= s.len() * MAX_SAMPLE_MS,
    decreases s.len(),
{
    if s.len() > 0 {
        lemma_sum_bounds(s.drop_last());
        assert(all_bounded(s) ==> all_bounded(s.drop_last()));
        assert((s.len() - 1) * MAX_SAMPLE_MS + MAX_SAMPLE_MS == s.len() * MAX_SAMPLE_MS)
            by (nonlinear_arith);
    }
}

proof fn lemma_sum_sq_bounds(s: Seq<u64>)
    ensures
        0 <= sum_sq_of(s),
        all_bounded(s) ==> sum_sq_of(s) <= s.len() * MAX_SAMPLE_MS * MAX_SAMPLE_MS,
    decreases s.len(),
{
    if s.len() > 0 {
        lemma_sum_sq_bounds(s.drop_last());
        assert(all_bounded(s) ==> all_bounded(s.drop_last()));
        if all_bounded(s) {
            assert(s.last() * s.last() <= MAX_SAMPLE_MS * MAX_SAMPLE_MS) by (nonlinear_arith)
                requires 0 <= s.last() <= MAX_SAMPLE_MS;
            assert((s.len() - 1) * MAX_SAMPLE_MS * MAX_SAMPLE_MS + MAX_SAMPLE_MS * MAX_SAMPLE_MS
                == s.len() * MAX_SAMPLE_MS * MAX_SAMPLE_MS) by (nonlinear_arith);
        }
    }
}

proof fn lemma_to_multiset_insert(s: Seq<u64>, i: int, a: u64)
    requires
        0 <= i <= s.len(),
    ensures
        s.insert(i, a).to_multiset() =~= s.to_multiset().insert(a),
{
    broadcast use vstd::seq_lib::group_to_multiset_ensures;

    let pre = s.subrange(0, i);
    let post = s.subrange(i, s.len() as int);
    assert(s.insert(i, a) =~= pre.push(a) + post);
    vstd::seq_lib::lemma_multiset_commutative(pre.push(a), post);
    vstd::seq_lib::lemma_multiset_commutative(pre, post);
    assert(pre + post =~= s);
}

/// Returns the samples in ascending order (an insertion sort).
pub fn sort_samples(samples: &Vec<u64>) -> (res: Vec<u64>)
    ensures
        res@ == sorted_of(samples@),
        res@.len() == samples@.len(),
        is_sorted(res@),
        res@.to_multiset() == samples@.to_multiset(),
{
    broadcast use vstd::seq_lib::group_to_multiset_ensures;

    let mut res: Vec<u64> = Vec::new();
    let n = samples.len();
    assert(samples@.subrange(0, 0) =~= Seq::<u64>::empty());
    for i in 0..n
        invariant
            n == samples@.len(),
            is_sorted(res@),
            res@.to_multiset() == samples@.subrange(0, i as int).to_multiset(),
            res@.len() == i,
    {
        let x = samples[i];
        let mut j: usize = 0;
        while j < res.len() && res[j] <= x
            invariant
                j <= res@.len(),
                forall|k: int| 0 <= k < j ==> res@[k] <= x,
            decreases res@.len() - j,
        {
            j += 1;
        }
        let ghost old_res = res@;
        res.insert(j, x);
        proof {
            assert forall|p: int, q: int| 0 <= p <= q < res@.len() implies res@[p] <= res@[q] by {
                if p < j && q == j {
                    assert(res@[p] == old_res[p]);
                } else if p == j && q > j {
                    assert(res@[q] == old_res[q - 1]);
                    assert(old_res[j as int] > x || j >= old_res.len());
                } else if p < j && q > j {
                    assert(res@[p] == old_res[p] && res@[q] == old_res[q - 1]);
                } else if p > j && q > j {
                    assert(res@[p] == old_res[p - 1] && res@[q] == old_res[q - 1]);
                } else if p < j && q < j {
                    assert(res@[p] == old_res[p] && res@[q] == old_res[q]);
                }
            }
            lemma_to_multiset_insert(old_res, j as int, x);
            assert(res@ == old_res.insert(j as int, x));
            assert(samples@.subrange(0, i + 1) =~= samples@.subrange(0, i as int).push(x));
            vstd::seq_lib::to_multiset_build(samples@.subrange(0, i as int), x);
        }
    }
    proof {
        assert(samples@.subrange(0, n as int) =~= samples@);
        samples@.lemma_sort_by_ensures(leq_u64());
        assert(sorted_by(res@, leq_u64()));
        lemma_sorted_unique(res@, sorted_of(samples@), leq_u64());
    }
    res
}

/// An upper bound (two to the 126th power) on the values `isqrt` accepts.
pub const ISQRT_MAX: u128 = 0x40000000000000000000000000000000;

/// Returns the floor of the square root of `v`.
pub fn isqrt(v: u128) -> (r: u64)
    requires
        v < ISQRT_MAX,
    ensures
        is_sqrt_floor(v as int, r as int),
{
    let mut lo: u64 = 0;
    let mut hi: u128 = 0x8000000000000000;
    assert(0x8000000000000000u128 * 0x8000000000000000u128 == ISQRT_MAX);
    // invariant: lo * lo <= v < hi * hi
    while (lo as u128) + 1 < hi
        invariant
            (lo as u128) < hi,
            hi <= 0x8000000000000000u128,
            (lo as int) * (lo as int) <= v as int,
            (v as int) < (hi as int) * (hi as int),
        decreases hi - lo as u128,
    {
        let mid: u128 = (lo as u128 + hi) / 2;
        assert(mid < 0x8000000000000000u128);
        assert(mid * mid < ISQRT_MAX) by (nonlinear_arith)
            requires mid < 0x8000000000000000u128;
        if mid * mid <= v {
            lo = mid as u64;
        } else {
            hi = mid;
        }
    }
    assert((lo as int + 1) * (lo as int + 1) >= (hi as int) * (hi as int)) by (nonlinear_arith)
        requires (lo as u128) + 1 >= hi && hi >= 1;
    lo
}

/// The arithmetic mean of the samples, scaled by `STAT_SCALE` (floor).
pub open spec fn mean_milli_of(s: Seq<u64>) -> int
    recommends s.len() > 0,
{
    sum_of(s) * 1000 / s.len() as int
}

/// The conventional median over the sorted samples `t`, scaled by
/// `STAT_SCALE`: the middle element for odd counts, the average of the two
/// middle elements for even counts.
pub open spec fn median_milli_of(t: Seq<u64>) -> int
    recommends t.len() > 0,
{
    let n = t.len() as int;
    if n % 2 == 1 {
        t[n / 2] * 1000
    } else {
        (t[n / 2 - 1] + t[n / 2]) * 500
    }
}

/// The `p`-th percentile over the sorted samples `t`, scaled by `STAT_SCALE`:
/// linear interpolation between the two nearest ranks at index
/// `p * (len - 1) / 100`.
pub open spec fn percentile_milli_of(t: Seq<u64>, p: int) -> int
    recommends t.len() > 0 && 0 <= p <= 100,
{
    let k = p * (t.len() - 1);
    let lo = k / 100;
    let w = k % 100;
    if w == 0 {
        t[lo] * 1000
    } else {
        (t[lo] * (100 - w) + t[lo + 1] * w) * 10
    }
}

/// The population variance of the samples times the square of `STAT_SCALE`
/// (floor): `1000000 * (n * sum(x^2) - sum(x)^2) / n^2`.
pub open spec fn scaled_variance_of(s: Seq<u64>) -> int
    recommends s.len() > 0,
{
    let n = s.len() as int;
    (n * sum_sq_of(s) - sum_of(s) * sum_of(s)) * 1000000 / (n * n)
}

/// Derived statistics over one list of timing samples; every field is scaled
/// by `STAT_SCALE` (thousandths of a millisecond).
#[derive(Debug, Clone, Copy, PartialEq, Eq, Structural)]
pub struct StatisticalSummary {
    pub mean: u64,
    pub median: u64,
    pub std_dev: u64,
    pub percentile_95: u64,
    pub percentile_99: u64,
    pub min: u64,
    pub max: u64,
}

impl StatisticalSummary {
    /// Every field agrees with its definition over the samples `s`; empty
    /// input yields all-zero statistics.
    pub open spec fn consistent_with(self, s: Seq<u64>) -> bool {
        if s.len() == 0 {
            self == (StatisticalSummary {
                mean: 0,
                median: 0,
                std_dev: 0,
                percentile_95: 0,
                percentile_99: 0,
                min: 0,
                max: 0,
            })
        } else {
            let t = sorted_of(s);
            &&& self.mean == mean_milli_of(s)
            &&& self.median == median_milli_of(t)
            &&& is_sqrt_floor(scaled_variance_of(s), self.std_dev as int)
            &&& self.percentile_95 == percentile_milli_of(t, 95)
            &&& self.percentile_99 == percentile_milli_of(t, 99)
            &&& self.min == t[0] * 1000
            &&& self.max == t[t.len() - 1] * 1000
        }
    }
}

proof fn lemma_bounded_of_multiset(a: Seq<u64>, b: Seq<u64>)
    requires
        a.to_multiset() == b.to_multiset(),
        all_bounded(a),
    ensures
        all_bounded(b),
{
    broadcast use vstd::seq_lib::group_to_multiset_ensures;

    assert forall|i: int| 0 <= i < b.len() implies b[i] <= MAX_SAMPLE_MS by {
        assert(b.to_multiset().count(b[i]) > 0);
        assert(a.contains(b[i]));
    }
}

proof fn lemma_sum_constant(s: Seq<u64>, v: u64)
    requires
        forall|i: int| 0 <= i < s.len() ==> s[i] == v,
    ensures
        sum_of(s) == s.len() * v,
        sum_sq_of(s) == s.len() * (v * v),
    decreases s.len(),
{
    if s.len() == 0 {
        assert(s.len() * v == 0) by (nonlinear_arith)
            requires s.len() == 0;
        assert(s.len() * (v * v) == 0) by (nonlinear_arith)
            requires s.len() == 0;
    } else {
        lemma_sum_constant(s.drop_last(), v);
        assert((s.len() - 1) * v + v == s.len() * v) by (nonlinear_arith);
        assert((s.len() - 1) * (v * v) + v * v == s.len() * (v * v)) by (nonlinear_arith);
    }
}

proof fn lemma_sum_mixed(s: Seq<u64>, x: u64)
    ensures
        sum_sq_of(s) + s.len() * (x * x) >= 2 * x * sum_of(s),
    decreases s.len(),
{
    if s.len() > 0 {
        lemma_sum_mixed(s.drop_last(), x);
        let y = s.last();
        assert(y * y + x * x >= 2 * x * y) by (nonlinear_arith);
        assert((s.len() - 1) * (x * x) + x * x == s.len() * (x * x)) by (nonlinear_arith);
        assert(2 * x * (sum_of(s.drop_last()) + y) == 2 * x * sum_of(s.drop_last()) + 2 * x * y)
            by (nonlinear_arith);
    }
}

/// Cauchy-Schwarz: the variance numerator is never negative.
proof fn lemma_variance_num_nonneg(s: Seq<u64>)
    ensures
        sum_of(s) * sum_of(s) <= s.len() * sum_sq_of(s),
    decreases s.len(),
{
    if s.len() > 0 {
        let t = s.drop_last();
        let y = s.last();
        lemma_variance_num_nonneg(t);
        lemma_sum_mixed(t, y);
        lemma_sum_bounds(t);
        lemma_sum_sq_bounds(t);
        assert(sum_of(s) == sum_of(t) + y && sum_sq_of(s) == sum_sq_of(t) + y * y);
        assert((sum_of(t) + y) * (sum_of(t) + y) <= s.len() * (sum_sq_of(t) + y * y))
            by (nonlinear_arith)
            requires
                sum_of(t) * sum_of(t) <= t.len() * sum_sq_of(t),
                sum_sq_of(t) + t.len() * (y * y) >= 2 * y * sum_of(t),
                s.len() == t.len() + 1,
                sum_of(t) >= 0,
                sum_sq_of(t) >= 0,
                y >= 0;
    }
}

impl StatisticalSummary {
    /// Computes every derived statistic over `values`; empty input degrades
    /// gracefully to all-zero statistics.
    pub fn calculate(values: &Vec<u64>) -> (r: Self)
        requires
            values@.len() <= MAX_SAMPLES,
            all_bounded(values@),
        ensures
            r.consistent_with(values@),
    {
        if values.len() == 0 {
            return StatisticalSummary {
                mean: 0,
                median: 0,
                std_dev: 0,
                percentile_95: 0,
                percentile_99: 0,
                min: 0,
                max: 0,
            };
        }
        let n = values.len();
        let sorted_values = sort_samples(values);
        proof {
            lemma_bounded_of_multiset(values@, sorted_values@);
        }

        let mut sum: u128 = 0;
        let mut sum_sq: u128 = 0;
        let mut i: usize = 0;
        assert(values@.subrange(0, 0) =~= Seq::<u64>::empty());
        while i < n
            invariant
                n == values@.len(),
                n <= MAX_SAMPLES,
                all_bounded(values@),
                i <= n,
                sum == sum_of(values@.subrange(0, i as int)),
                sum_sq == sum_sq_of(values@.subrange(0, i as int)),
            decreases n - i,
        {
            let x = values[i];
            proof {
                let pre = values@.subrange(0, i as int);
                let nxt = values@.subrange(0, i + 1);
                assert(all_bounded(pre));
                lemma_sum_bounds(pre);
                lemma_sum_sq_bounds(pre);
                assert(pre.len() * MAX_SAMPLE_MS <= 1000000000000000) by (nonlinear_arith)
                    requires pre.len() <= 1000000 && MAX_SAMPLE_MS == 1000000000;
                assert(pre.len() * MAX_SAMPLE_MS * MAX_SAMPLE_MS <= 1000000000000000000000000)
                    by (nonlinear_arith)
                    requires pre.len() <= 1000000 && MAX_SAMPLE_MS == 1000000000;
                assert(x * x <= 1000000000000000000) by (nonlinear_arith)
                    requires 0 <= x <= 1000000000;
                assert(nxt.drop_last() =~= pre);
                assert(nxt.last() == values@[i as int]);
            }
            sum = sum + x as u128;
            sum_sq = sum_sq + (x as u128) * (x as u128);
            i += 1;
        }
        proof {
            assert(values@.subrange(0, n as int) =~= values@);
            lemma_sum_bounds(values@);
            lemma_sum_sq_bounds(values@);
            assert(values@.len() * MAX_SAMPLE_MS <= 1000000000000000) by (nonlinear_arith)
                requires values@.len() <= 1000000 && MAX_SAMPLE_MS == 1000000000;
            assert(values@.len() * MAX_SAMPLE_MS * MAX_SAMPLE_MS <= 1000000000000000000000000)
                by (nonlinear_arith)
                requires values@.len() <= 1000000 && MAX_SAMPLE_MS == 1000000000;
        }

        let mean_wide: u128 = sum * 1000 / (n as u128);
        proof {
            vstd::arithmetic::div_mod::lemma_div_is_ordered_by_denominator(
                (sum * 1000) as int,
                1,
                n as int,
            );
            vstd::arithmetic::div_mod::lemma_div_basics((sum * 1000) as int);
        }
        let mean = mean_wide as u64;

        let median: u64 = if n % 2 == 1 {
            sorted_values[n / 2] * 1000
        } else {
            (sorted_values[n / 2 - 1] + sorted_values[n / 2]) * 500
        };

        // variance numerator: n * sum(x^2) - sum(x)^2, never negative
        proof {
            lemma_variance_num_nonneg(values@);
            assert((n as u128) * sum_sq <= 1000000000000000000000000000000u128)
                by (nonlinear_arith)
                requires
                    n as u128 <= 1000000,
                    sum_sq <= 1000000000000000000000000u128;
        }
        let var_num: u128 = (n as u128) * sum_sq - sum * sum;
        proof {
            assert(var_num * 1000000 < ISQRT_MAX) by (nonlinear_arith)
                requires var_num <= 1000000000000000000000000000000u128;
            assert(1 <= (n as u128) * (n as u128) <= 1000000000000u128) by (nonlinear_arith)
                requires 1 <= n as u128 <= 1000000;
        }
        let scaled_var: u128 = var_num * 1000000 / ((n as u128) * (n as u128));
        proof {
            vstd::arithmetic::div_mod::lemma_div_is_ordered_by_denominator(
                (var_num * 1000000) as int,
                1,
                (n as int) * (n as int),
            );
            vstd::arithmetic::div_mod::lemma_div_basics((var_num * 1000000) as int);
            assert((n as int) * (n as int) >= 1) by (nonlinear_arith)
                requires n >= 1;
        }
        let std_dev = isqrt(scaled_var);

        let percentile_95 = Self::percentile(&sorted_values, 95);
        let percentile_99 = Self::percentile(&sorted_values, 99);
        let min = sorted_values[0] * 1000;
        let max = sorted_values[n - 1] * 1000;

        StatisticalSummary { mean, median, std_dev, percentile_95, percentile_99, min, max }
    }

    /// The `p`-th percentile of `sorted_values` by linear interpolation
    /// between the two nearest ranks; scaled by `STAT_SCALE`.
    pub fn percentile(sorted_values: &Vec<u64>, percentile: u64) -> (r: u64)
        requires
            is_sorted(sorted_values@),
            all_bounded(sorted_values@),
            sorted_values@.len() <= MAX_SAMPLES,
            percentile <= 100,
        ensures
            sorted_values@.len() == 0 ==> r == 0,
            sorted_values@.len() > 0 ==> r == percentile_milli_of(
                sorted_values@,
                percentile as int,
            ),
    {
        let n = sorted_values.len();
        if n == 0 {
            return 0;
        }
        proof {
            assert((percentile as u128) * ((n - 1) as u128) <= 100 * ((n - 1) as u128))
                by (nonlinear_arith)
                requires percentile <= 100;
        }
        let k_wide: u128 = (percentile as u128) * ((n - 1) as u128);
        proof {
            assert(k_wide <= 100 * ((n - 1) as u128)) by (nonlinear_arith)
                requires
                    k_wide == (percentile as u128) * ((n - 1) as u128),
                    percentile <= 100;
            assert(100 * ((n - 1) as u128) <= 100 * (MAX_SAMPLES as u128 - 1))
                by (nonlinear_arith)
                requires n as u128 <= MAX_SAMPLES as u128 && n >= 1;
        }
        let k: u64 = k_wide as u64;
        proof {
            vstd::arithmetic::div_mod::lemma_fundamental_div_mod(k as int, 100);
        }
        let lo = (k / 100) as usize;
        let w = k % 100;
        proof {
            vstd::arithmetic::div_mod::lemma_div_is_ordered(
                k as int,
                100 * ((n - 1) as int),
                100,
            );
            assert(100 * ((n - 1) as int) / 100 == (n - 1) as int) by {
                vstd::arithmetic::div_mod::lemma_div_multiples_vanish((n - 1) as int, 100);
            }
        }
        if w == 0 {
            proof {
                assert(sorted_values@[lo as int] * 1000 <= MAX_SAMPLE_MS * 1000)
                    by (nonlinear_arith)
                    requires 0 <= sorted_values@[lo as int] <= MAX_SAMPLE_MS;
            }
            sorted_values[lo] * 1000
        } else {
            proof {
                // the index is not exactly on a rank, so it lies strictly
                // below the last one
                assert(k == 100 * (lo as int) + w);
                assert(lo < (n - 1) as int) by (nonlinear_arith)
                    requires
                        100 * (lo as int) + (w as int) <= 100 * ((n - 1) as int),
                        0 < w < 100;
                assert(sorted_values@[lo as int] * (100 - w)
                    + sorted_values@[lo as int + 1] * (w as int) <= 200 * MAX_SAMPLE_MS)
                    by (nonlinear_arith)
                    requires
                        0 <= sorted_values@[lo as int] <= MAX_SAMPLE_MS,
                        0 <= sorted_values@[lo as int + 1] <= MAX_SAMPLE_MS,
                        0 < w < 100;
            }
            (sorted_values[lo] * (100 - w) + sorted_values[lo + 1] * w) * 10
        }
    }
}

/// For every sorted non-empty sample list, the 100th percentile is the
/// maximum sample and the 0th percentile is the minimum sample (each scaled
/// by `STAT_SCALE`).
pub proof fn lemma_percentile_extremes(t: Seq<u64>)
    requires
        t.len() >= 1,
        is_sorted(t),
    ensures
        percentile_milli_of(t, 100) == t[t.len() - 1] * 1000,
        percentile_milli_of(t, 0) == t[0] * 1000,
        forall|i: int| 0 <= i < t.len() ==> #[trigger] (t[i] * 1000) <= percentile_milli_of(
            t,
            100,
        ),
        forall|i: int| 0 <= i < t.len() ==> percentile_milli_of(t, 0) <= #[trigger] (t[i] * 1000),
{
    let n = t.len() as int;
    vstd::arithmetic::div_mod::lemma_div_multiples_vanish(n - 1, 100);
    vstd::arithmetic::div_mod::lemma_mod_multiples_basic(n - 1, 100);
    assert(100 * (n - 1) == (n - 1) * 100);
    vstd::arithmetic::div_mod::lemma_div_of0(100);
    vstd::arithmetic::div_mod::lemma_small_mod(0, 100);
}

/// The standard deviation of a list of identical values is exactly zero.
pub proof fn lemma_std_dev_identical(summary: StatisticalSummary, s: Seq<u64>, v: u64)
    requires
        s.len() >= 1,
        forall|i: int| 0 <= i < s.len() ==> s[i] == v,
        summary.consistent_with(s),
    ensures
        summary.std_dev == 0,
{
    let n = s.len() as int;
    lemma_sum_constant(s, v);
    assert(n * (n * (v * v)) - (n * v) * (n * v) == 0) by (nonlinear_arith);
    assert(scaled_variance_of(s) == (0int) * 1000000 / (n * n));
    assert((0int) * 1000000 == 0);
    assert((n * n) > 0) by (nonlinear_arith)
        requires n >= 1;
    vstd::arithmetic::div_mod::lemma_div_of0(n * n);
    assert(is_sqrt_floor(0, summary.std_dev as int));
    assert(summary.std_dev as int == 0) by (nonlinear_arith)
        requires
            0 <= summary.std_dev as int,
            (summary.std_dev as int) * (summary.std_dev as int) <= 0;
}

} // verus!
