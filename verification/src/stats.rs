//! The statistics engine: from a sequence of raw samples to a summary.
//!
//! Samples are whole numbers in a unit that the caller chooses (nanoseconds,
//! bytes, requests). Every statistic is given in millionths of that unit,
//! rounded down to a whole millionth: the mean of 4 and 5 is `4_500_000`, and
//! the deviation of 1, 2, 3, 4, 5, the square root of 2, is `1_414_213`.
//! All arithmetic is exact: a statistic is the rounded-down value of the
//! formula over the integers, not an approximation of it, whatever the size
//! of the samples and however many there are.

use vstd::prelude::*;
use vstd::arithmetic::div_mod::{
    lemma_div_multiples_vanish_quotient,
    lemma_fundamental_div_mod,
};
use vstd::relations::{sorted_by, total_ordering};
use vstd::seq_lib::lemma_sorted_unique;
use crate::roots::{floor_sqrt, isqrt, lemma_floor_sqrt_from_witness};
use crate::wide::{two_128, two_256, U256};

verus! {

/// A percentile is named in thousandths of a percent: `2_500` is the 2.5th
/// percentile, `100_000` the hundredth.
pub const FULL_SCALE: u32 = 100_000;

/// The number of units of a statistic in one unit of the samples: a
/// statistic counts millionths.
pub const UNIT: u64 = 1_000_000;

/// The order that samples are sorted by.
pub open spec fn ascending_order() -> spec_fn(u64, u64) -> bool {
    |a: u64, b: u64| a <= b
}

/// Whether no sample is followed by a smaller one.
pub open spec fn ascending(s: Seq<u64>) -> bool {
    forall|i: int, j: int| 0 <= i <= j < s.len() ==> s[i] <= s[j]
}

/// The samples in ascending order.
pub open spec fn sorted(s: Seq<u64>) -> Seq<u64> {
    s.sort_by(ascending_order())
}

/// The sum of the samples.
pub open spec fn total(s: Seq<u64>) -> int
    decreases s.len(),
{
    if s.len() == 0 {
        0
    } else {
        total(s.drop_last()) + s.last()
    }
}

/// The sum of the squares of the samples.
pub open spec fn square_total(s: Seq<u64>) -> int
    decreases s.len(),
{
    if s.len() == 0 {
        0
    } else {
        square_total(s.drop_last()) + s.last() * s.last()
    }
}

/// The sum of `(n * x - t)^2` over the samples `x`. With `n` the number of
/// samples and `t` their sum, `n * x - t` is `n` times the distance of `x`
/// from the mean, so this is `n^3` times the population variance.
pub open spec fn deviation_squares(s: Seq<u64>, n: int, t: int) -> int
    decreases s.len(),
{
    if s.len() == 0 {
        0
    } else {
        deviation_squares(s.drop_last(), n, t) + (n * s.last() - t) * (n * s.last() - t)
    }
}

/// The mean of the samples, in millionths, rounded down.
pub open spec fn mean(s: Seq<u64>) -> int {
    (total(s) * UNIT) / (s.len() as int)
}

/// The population variance of the samples, the mean of the squared distances
/// from the mean, in squared millionths, rounded down.
pub open spec fn variance(s: Seq<u64>) -> int {
    let n = s.len() as int;
    (UNIT * UNIT * deviation_squares(s, n, total(s))) / (n * n * n)
}

/// The population standard deviation of the samples, in millionths, rounded
/// down.
pub open spec fn stddev(s: Seq<u64>) -> nat {
    floor_sqrt(variance(s) as nat)
}

/// The percentile `p`, in thousandths of a percent, of samples in ascending
/// order, in millionths, rounded down. The rank `p / 100_000 * (n - 1)` falls
/// on a sample or between two neighbours; between two, the value is
/// interpolated linearly. A single sample is every percentile of itself.
pub open spec fn percentile(t: Seq<u64>, p: nat) -> int {
    let position = p * (t.len() - 1);
    let below = position / 100_000;
    let part = position % 100_000;
    if t.len() == 1 {
        t[0] * UNIT
    } else if part == 0 {
        t[below] * UNIT
    } else {
        ((t[below] * (100_000 - part) + t[below + 1] * part) * UNIT) / 100_000
    }
}

/// Why samples could not be summarised.
#[derive(Clone, Copy, Debug, PartialEq, Eq, Structural)]
pub enum StatsError {
    /// There is no sample.
    EmptyDataset,
}

impl StatsError {
    /// The message that a failure is reported with.
    pub fn message(&self) -> (m: String)
        ensures
            m@ == match *self {
                StatsError::EmptyDataset => "Dataset cannot be empty"@,
            },
    {
        match self {
            StatsError::EmptyDataset => "Dataset cannot be empty".to_owned(),
        }
    }
}

/// The mathematical content of a summary.
pub struct StatsView {
    pub min: nat,
    pub max: nat,
    pub average: nat,
    pub stddev: nat,
    pub p2_5: nat,
    pub p50: nat,
    pub p75: nat,
    pub p90: nat,
    pub p97_5: nat,
    pub p99: nat,
    pub p99_9: nat,
    pub p99_99: nat,
    pub p99_999: nat,
}

/// The summary of samples in ascending order, each statistic in millionths.
pub open spec fn summary(t: Seq<u64>) -> StatsView {
    StatsView {
        min: (t.first() * UNIT) as nat,
        max: (t.last() * UNIT) as nat,
        average: mean(t) as nat,
        stddev: stddev(t),
        p2_5: percentile(t, 2_500) as nat,
        p50: percentile(t, 50_000) as nat,
        p75: percentile(t, 75_000) as nat,
        p90: percentile(t, 90_000) as nat,
        p97_5: percentile(t, 97_500) as nat,
        p99: percentile(t, 99_000) as nat,
        p99_9: percentile(t, 99_900) as nat,
        p99_99: percentile(t, 99_990) as nat,
        p99_999: percentile(t, 99_999) as nat,
    }
}

/// What summarising the samples `s`, in whatever order they come, leads to.
pub open spec fn summarize(s: Seq<u64>) -> Result<StatsView, StatsError> {
    if s.len() == 0 {
        Err(StatsError::EmptyDataset)
    } else {
        Ok(summary(sorted(s)))
    }
}

/// A summary of samples: smallest and largest, mean, population standard
/// deviation and a fixed set of percentiles, each in millionths of the
/// samples' unit, rounded down to a whole millionth.
#[derive(Clone, Copy, Debug, PartialEq, Eq)]
pub struct PerformanceStats {
    min: u128,
    max: u128,
    average: u128,
    stddev: u128,
    p2_5: u128,
    p50: u128,
    p75: u128,
    p90: u128,
    p97_5: u128,
    p99: u128,
    p99_9: u128,
    p99_99: u128,
    p99_999: u128,
}

impl View for PerformanceStats {
    type V = StatsView;

    closed spec fn view(&self) -> StatsView {
        StatsView {
            min: self.min as nat,
            max: self.max as nat,
            average: self.average as nat,
            stddev: self.stddev as nat,
            p2_5: self.p2_5 as nat,
            p50: self.p50 as nat,
            p75: self.p75 as nat,
            p90: self.p90 as nat,
            p97_5: self.p97_5 as nat,
            p99: self.p99 as nat,
            p99_9: self.p99_9 as nat,
            p99_99: self.p99_99 as nat,
            p99_999: self.p99_999 as nat,
        }
    }
}

/// The order of samples is total.
pub proof fn lemma_ascending_order_is_total()
    ensures
        total_ordering(ascending_order()),
{
    let leq = ascending_order();
    assert(vstd::relations::reflexive(leq));
    assert(vstd::relations::antisymmetric(leq));
    assert(vstd::relations::transitive(leq));
    assert(vstd::relations::strongly_connected(leq));
}

/// Sorting yields the samples in ascending order, each as often as before.
pub proof fn lemma_sorted_is_ascending(s: Seq<u64>)
    ensures
        ascending(sorted(s)),
        sorted(s).to_multiset() == s.to_multiset(),
        sorted(s).len() == s.len(),
{
    lemma_ascending_order_is_total();
    s.lemma_sort_by_ensures(ascending_order());
    let t = sorted(s);
    assert forall|i: int, j: int| 0 <= i <= j < t.len() implies t[i] <= t[j] by {
        if i < j {
            assert(ascending_order()(t[i], t[j]));
        }
    }
    vstd::seq_lib::to_multiset_len(s);
    vstd::seq_lib::to_multiset_len(t);
}

/// There is one way only to put samples in ascending order.
pub proof fn lemma_ascending_is_sorted(t: Seq<u64>, s: Seq<u64>)
    requires
        ascending(t),
        t.to_multiset() == s.to_multiset(),
    ensures
        t == sorted(s),
{
    lemma_ascending_order_is_total();
    lemma_sorted_is_ascending(s);
    let u = sorted(s);
    assert(sorted_by(t, ascending_order()));
    assert(sorted_by(u, ascending_order()));
    lemma_sorted_unique(t, u, ascending_order());
}

/// The sum of the `(n * x - t)^2` written over the sum of the samples and
/// the sum of their squares.
proof fn lemma_deviation_squares_by_totals(s: Seq<u64>, n: int, t: int)
    ensures
        deviation_squares(s, n, t) == n * n * square_total(s) - 2 * n * t * total(s) + s.len() * (
        t * t),
    decreases s.len(),
{
    if s.len() > 0 {
        let r = s.drop_last();
        let x = s.last() as int;
        lemma_deviation_squares_by_totals(r, n, t);
        let a = square_total(r);
        let b = total(r);
        let m = r.len() as int;
        assert(n * n * (a + x * x) - 2 * n * t * (b + x) + (m + 1) * (t * t) == (n * n * a - 2
            * n * t * b + m * (t * t)) + (n * x - t) * (n * x - t)) by (nonlinear_arith);
    }
}

/// With `n` samples that sum up to `t` and whose squares sum up to `q`, the
/// population variance in squared millionths is
/// `UNIT * UNIT * (n * q - t * t) / (n * n)`.
proof fn lemma_variance_by_totals(s: Seq<u64>)
    requires
        s.len() > 0,
    ensures
        s.len() * square_total(s) - total(s) * total(s) >= 0,
        variance(s) == (UNIT * UNIT * (s.len() * square_total(s) - total(s) * total(s))) / ((
        s.len() * s.len()) as int),
{
    let n = s.len() as int;
    let t = total(s);
    let q = square_total(s);
    let w = n * q - t * t;
    let u = UNIT * UNIT;
    lemma_deviation_squares_by_totals(s, n, t);
    lemma_deviation_squares_are_not_negative(s, n, t);
    assert(deviation_squares(s, n, t) == n * w) by (nonlinear_arith)
        requires
            deviation_squares(s, n, t) == n * n * q - 2 * n * t * t + n * (t * t),
            w == n * q - t * t,
    ;
    assert(w >= 0) by (nonlinear_arith)
        requires
            n * w >= 0,
            n > 0,
    ;
    assert(n * n > 0) by (nonlinear_arith)
        requires
            n > 0,
    ;
    assert(n * n * n == n * (n * n)) by (nonlinear_arith);
    assert(u * (n * w) == n * (u * w)) by (nonlinear_arith);
    assert(u * w >= 0) by (nonlinear_arith)
        requires
            u >= 0,
            w >= 0,
    ;
    lemma_div_multiples_vanish_quotient(n, u * w, n * n);
}

/// A sum of squares is not negative.
proof fn lemma_deviation_squares_are_not_negative(s: Seq<u64>, n: int, t: int)
    ensures
        deviation_squares(s, n, t) >= 0,
    decreases s.len(),
{
    if s.len() > 0 {
        lemma_deviation_squares_are_not_negative(s.drop_last(), n, t);
        let e = n * s.last() - t;
        assert(e * e >= 0) by (nonlinear_arith);
    }
}

/// `slice::sort` of the standard library, which puts the elements of a slice
/// in ascending order. The contract claims that the vector afterwards is in
/// ascending order and holds each value as often as before.
#[verifier::external_body]
fn sort_ascending(data: &mut Vec<u64>)
    ensures
        ascending(final(data)@),
        final(data)@.to_multiset() == old(data)@.to_multiset(),
{
    data.sort();
}

/// The sum of the samples.
pub fn sum(samples: &[u64]) -> (t: u128)
    ensures
        t == total(samples@),
{
    let n = samples.len();
    let mut acc: u128 = 0;
    let mut i: usize = 0;
    while i < n
        invariant
            i <= n,
            n == samples@.len(),
            acc == total(samples@.take(i as int)),
            acc <= i * u64::MAX,
        decreases n - i,
    {
        assert(samples@.take(i + 1).drop_last() =~= samples@.take(i as int));
        assert(i * u64::MAX + u64::MAX == (i + 1) * u64::MAX) by (nonlinear_arith);
        assert((i + 1) * u64::MAX <= u128::MAX) by (nonlinear_arith)
            requires
                i + 1 <= u64::MAX,
        ;
        acc = acc + samples[i] as u128;
        i = i + 1;
    }
    assert(samples@.take(n as int) =~= samples@);
    acc
}

/// The sum of the squares of the samples is at most the square of the
/// largest sample value once for each of them.
proof fn lemma_square_total_is_bounded(s: Seq<u64>)
    ensures
        0 <= square_total(s) <= s.len() * (u64::MAX * u64::MAX),
    decreases s.len(),
{
    if s.len() > 0 {
        lemma_square_total_is_bounded(s.drop_last());
        let x = s.last() as int;
        assert(0 <= x * x <= u64::MAX * u64::MAX) by (nonlinear_arith)
            requires
                0 <= x <= u64::MAX,
        ;
        assert((s.len() - 1) * (u64::MAX * u64::MAX) + u64::MAX * u64::MAX == s.len() * (u64::MAX
            * u64::MAX)) by (nonlinear_arith);
    }
}

/// Two numbers of at most 64 bits and a third that is at most the square of
/// such a number have a product below two to the power of 256.
proof fn lemma_fourfold_product_fits(a: int, b: int, c: int)
    requires
        0 <= a <= u64::MAX,
        0 <= b <= u64::MAX,
        0 <= c,
        c <= u64::MAX * u64::MAX,
    ensures
        a * (b * c) < two_256(),
        a * b <= u64::MAX * u64::MAX,
{
    assert(a * b <= u64::MAX * u64::MAX) by (nonlinear_arith)
        requires
            0 <= a <= u64::MAX,
            0 <= b <= u64::MAX,
    ;
    assert(a * (b * c) == (a * b) * c) by (nonlinear_arith);
    assert((a * b) * c <= (u64::MAX * u64::MAX) * (u64::MAX * u64::MAX)) by (nonlinear_arith)
        requires
            0 <= a * b <= u64::MAX * u64::MAX,
            0 <= c <= u64::MAX * u64::MAX,
    ;
    assert((u64::MAX * u64::MAX) * (u64::MAX * u64::MAX) < two_128() * two_128())
        by (nonlinear_arith)
        requires
            u64::MAX * u64::MAX < two_128(),
    ;
}

/// The sum of the squares of the samples, times the number of samples.
fn scaled_square_total(samples: &[u64]) -> (r: U256)
    ensures
        r@ == samples@.len() * square_total(samples@),
{
    let n = samples.len();
    let count = n as u128;
    let mut acc = U256::zero();
    let mut i: usize = 0;
    while i < n
        invariant
            i <= n,
            n == samples@.len(),
            count == n,
            acc@ == n * square_total(samples@.take(i as int)),
        decreases n - i,
    {
        assert(samples@.take(i + 1).drop_last() =~= samples@.take(i as int));
        let x = samples[i] as u128;
        proof {
            let before = square_total(samples@.take(i as int));
            let after = square_total(samples@.take(i + 1));
            assert(after == before + x * x);
            lemma_square_total_is_bounded(samples@.take(i + 1));
            assert((i + 1) * (u64::MAX * u64::MAX) <= n * (u64::MAX * u64::MAX))
                by (nonlinear_arith)
                requires
                    i + 1 <= n,
            ;
            assert(n * after <= n * (n * (u64::MAX * u64::MAX))) by (nonlinear_arith)
                requires
                    0 <= after <= n * (u64::MAX * u64::MAX),
                    n >= 0,
            ;
            lemma_fourfold_product_fits(n as int, n as int, u64::MAX * u64::MAX);
            lemma_fourfold_product_fits(n as int, x as int, 0);
            assert(n * after == n * before + (n * x) * x) by (nonlinear_arith)
                requires
                    after == before + x * x,
            ;
        }
        let term = U256::product(count * x, x);
        acc = acc.plus(term);
        i = i + 1;
    }
    assert(samples@.take(n as int) =~= samples@);
    acc
}

/// An interpolated value lies between the two values it is taken from, so it
/// is no larger than the larger of them.
proof fn lemma_interpolation_is_bounded(a: int, b: int, part: int)
    requires
        0 <= a <= u64::MAX,
        0 <= b <= u64::MAX,
        0 < part < 100_000,
    ensures
        0 <= a * (100_000 - part) + b * part <= u64::MAX * 100_000,
{
    assert(0 <= a * (100_000 - part) <= u64::MAX * (100_000 - part)) by (nonlinear_arith)
        requires
            0 <= a <= u64::MAX,
            0 < part < 100_000,
    ;
    assert(0 <= b * part <= u64::MAX * part) by (nonlinear_arith)
        requires
            0 <= b <= u64::MAX,
            0 < part < 100_000,
    ;
    assert(u64::MAX * (100_000 - part) + u64::MAX * part == u64::MAX * 100_000)
        by (nonlinear_arith);
}

/// The percentile `p`, in thousandths of a percent, of samples in ascending
/// order, in millionths, rounded down. A single sample is every percentile of
/// itself, whatever `p` is.
pub fn compute_percentile(sorted_data: &[u64], p: u32) -> (value: u128)
    requires
        sorted_data@.len() > 0,
        sorted_data@.len() == 1 || p <= FULL_SCALE,
    ensures
        value == percentile(sorted_data@, p as nat),
{
    let n = sorted_data.len();
    if n == 1 {
        return (sorted_data[0] as u128) * (UNIT as u128);
    }
    let steps: u128 = (n - 1) as u128;
    assert(p * steps <= 100_000 * steps) by (nonlinear_arith)
        requires
            p <= 100_000,
            steps >= 0,
    ;
    let position: u128 = (p as u128) * steps;
    let below: u128 = position / 100_000;
    let part: u128 = position % 100_000;
    assert(below <= steps);
    if part == 0 {
        return (sorted_data[below as usize] as u128) * (UNIT as u128);
    }
    assert(below < steps);
    let low: u64 = sorted_data[below as usize];
    let high: u64 = sorted_data[(below + 1) as usize];
    proof {
        lemma_interpolation_is_bounded(low as int, high as int, part as int);
    }
    let weighted: u128 = (low as u128) * (100_000 - part) + (high as u128) * part;
    (weighted * (UNIT as u128)) / 100_000
}

/// The mean of the samples, in millionths, rounded down.
pub fn rounded_mean(samples: &[u64]) -> (m: u128)
    requires
        samples@.len() > 0,
    ensures
        m == mean(samples@),
{
    let count = samples.len() as u128;
    let t = sum(samples);
    proof {
        lemma_total_is_bounded(samples@);
        assert(t * UNIT < count * two_128()) by (nonlinear_arith)
            requires
                0 <= t <= count * u64::MAX,
                count > 0,
                UNIT == 1_000_000,
                two_128() == 0x1_0000_0000_0000_0000_0000_0000_0000_0000int,
        ;
    }
    U256::product(t, UNIT as u128).quotient(count)
}

/// The sum of the samples is at most the largest sample value once for each
/// of them.
proof fn lemma_total_is_bounded(s: Seq<u64>)
    ensures
        0 <= total(s) <= s.len() * u64::MAX,
    decreases s.len(),
{
    if s.len() > 0 {
        lemma_total_is_bounded(s.drop_last());
        assert((s.len() - 1) * u64::MAX + u64::MAX == s.len() * u64::MAX) by (nonlinear_arith);
    }
}

/// A quotient taken in two steps: with `w == q * d + r` and
/// `r * u == k * d + rest`, both remainders below `d`, the quotient of
/// `u * w` by `d` is `u * q + k`.
proof fn lemma_scaled_quotient(w: int, d: int, u: int, q: int, r: int, k: int, rest: int)
    requires
        d > 0,
        u >= 0,
        w == q * d + r,
        0 <= r < d,
        r * u == k * d + rest,
        0 <= rest < d,
    ensures
        (u * w) / d == u * q + k,
{
    assert(u * w == (u * q + k) * d + rest) by (nonlinear_arith)
        requires
            w == q * d + r,
            r * u == k * d + rest,
    ;
    vstd::arithmetic::div_mod::lemma_fundamental_div_mod_converse(u * w, d, u * q + k, rest);
}

/// The population standard deviation of the samples, in millionths, rounded
/// down.
pub fn rounded_stddev(samples: &[u64]) -> (d: u128)
    requires
        samples@.len() > 0,
    ensures
        d == stddev(samples@),
{
    let count = samples.len() as u128;
    let t = sum(samples);
    let scaled = scaled_square_total(samples);
    let squared = U256::product(t, t);
    proof {
        lemma_variance_by_totals(samples@);
    }
    let spread = scaled.minus(squared);
    assert(count * count <= u64::MAX * u64::MAX) by (nonlinear_arith)
        requires
            0 <= count <= u64::MAX,
    ;
    assert(count * count > 0) by (nonlinear_arith)
        requires
            count > 0,
    ;
    let square: u128 = count * count;
    proof {
        let n = count as int;
        let q = square_total(samples@);
        lemma_square_total_is_bounded(samples@);
        assert(spread@ <= square * (u64::MAX * u64::MAX)) by (nonlinear_arith)
            requires
                spread@ <= n * q,
                0 <= q <= n * (u64::MAX * u64::MAX),
                n > 0,
                square == n * n,
        ;
        assert(square * (u64::MAX * u64::MAX) < square * two_128()) by (nonlinear_arith)
            requires
                square > 0,
                u64::MAX * u64::MAX < two_128(),
        ;
    }
    // The variance in whole squared units, and what is left over.
    let whole = spread.quotient(square);
    proof {
        vstd::arithmetic::div_mod::lemma_fundamental_div_mod(spread@ as int, square as int);
        vstd::arithmetic::div_mod::lemma_mod_bound(spread@ as int, square as int);
        assert(whole * square <= spread@) by (nonlinear_arith)
            requires
                spread@ == square * whole + spread@ % (square as nat),
                0 <= spread@ % (square as nat),
        ;
    }
    let rest = spread.minus(U256::product(whole, square));
    let left: u128 = rest.low();
    proof {
        assert(rest@ == spread@ % (square as nat)) by (nonlinear_arith)
            requires
                rest@ == spread@ - whole * square,
                spread@ == square * whole + spread@ % (square as nat),
        ;
        assert(rest@ < two_128());
        vstd::arithmetic::div_mod::lemma_small_mod(rest@, two_128() as nat);
        assert(left == rest@);
    }
    // The left-over in squared millionths.
    let fine: u128 = 1_000_000_000_000;
    assert(fine == UNIT * UNIT);
    proof {
        assert(left * fine < square * two_128()) by (nonlinear_arith)
            requires
                0 <= left < square,
                fine == 1_000_000_000_000,
                two_128() == 0x1_0000_0000_0000_0000_0000_0000_0000_0000int,
        ;
    }
    let part = U256::product(left, fine).quotient(square);
    proof {
        let w = spread@ as int;
        let d = square as int;
        let u = fine as int;
        let lf = left as int;
        vstd::arithmetic::div_mod::lemma_fundamental_div_mod(lf * u, d);
        vstd::arithmetic::div_mod::lemma_mod_bound(lf * u, d);
        assert(lf * u == part * d + (lf * u) % d) by (nonlinear_arith)
            requires
                lf * u == d * part + (lf * u) % d,
        ;
        assert(w == whole * d + lf) by (nonlinear_arith)
            requires
                lf == w - whole * d,
        ;
        lemma_scaled_quotient(w, d, u, whole as int, lf, part as int, (lf * u) % d);
        assert(whole * fine + part < two_256()) by (nonlinear_arith)
            requires
                0 <= whole < two_128(),
                0 <= part < two_128(),
                fine == 1_000_000_000_000,
                two_128() == 0x1_0000_0000_0000_0000_0000_0000_0000_0000int,
                two_256() == two_128() * two_128(),
        ;
        assert(part * 1 == part);
        assert((UNIT * UNIT) * w == u * w);
        assert(u * (whole as int) == whole * fine) by (nonlinear_arith)
            requires
                u == fine,
        ;
    }
    let variance = U256::product(whole, fine).plus(U256::product(part, 1));
    isqrt(variance)
}

impl PerformanceStats {
    /// Summarises the samples, in whatever order they come. There is no
    /// summary of no samples.
    pub fn from_data(data: Vec<u64>) -> (r: Result<PerformanceStats, StatsError>)
        ensures
            match r {
                Ok(stats) => summarize(data@) == Ok::<StatsView, StatsError>(stats@),
                Err(e) => summarize(data@) == Err::<StatsView, StatsError>(e),
            },
    {
        if data.len() == 0 {
            return Err(StatsError::EmptyDataset);
        }
        let mut data = data;
        let ghost given = data@;
        sort_ascending(&mut data);
        proof {
            lemma_ascending_is_sorted(data@, given);
            lemma_sorted_is_ascending(given);
        }
        let n = data.len();
        let samples = data.as_slice();
        Ok(
            PerformanceStats {
                min: (samples[0] as u128) * (UNIT as u128),
                max: (samples[n - 1] as u128) * (UNIT as u128),
                average: rounded_mean(samples),
                stddev: rounded_stddev(samples),
                p2_5: compute_percentile(samples, 2_500),
                p50: compute_percentile(samples, 50_000),
                p75: compute_percentile(samples, 75_000),
                p90: compute_percentile(samples, 90_000),
                p97_5: compute_percentile(samples, 97_500),
                p99: compute_percentile(samples, 99_000),
                p99_9: compute_percentile(samples, 99_900),
                p99_99: compute_percentile(samples, 99_990),
                p99_999: compute_percentile(samples, 99_999),
            },
        )
    }
}

impl PerformanceStats {
    /// The smallest sample, in millionths.
    pub fn min(&self) -> (v: u128)
        ensures
            v == self@.min,
    {
        self.min
    }

    /// The largest sample, in millionths.
    pub fn max(&self) -> (v: u128)
        ensures
            v == self@.max,
    {
        self.max
    }

    /// The mean, in millionths, rounded down.
    pub fn average(&self) -> (v: u128)
        ensures
            v == self@.average,
    {
        self.average
    }

    /// The population standard deviation, in millionths, rounded down.
    pub fn stddev(&self) -> (v: u128)
        ensures
            v == self@.stddev,
    {
        self.stddev
    }

    /// The 2.5th percentile, in millionths.
    pub fn p2_5(&self) -> (v: u128)
        ensures
            v == self@.p2_5,
    {
        self.p2_5
    }

    /// The 50th percentile, in millionths.
    pub fn p50(&self) -> (v: u128)
        ensures
            v == self@.p50,
    {
        self.p50
    }

    /// The 75th percentile, in millionths.
    pub fn p75(&self) -> (v: u128)
        ensures
            v == self@.p75,
    {
        self.p75
    }

    /// The 90th percentile, in millionths.
    pub fn p90(&self) -> (v: u128)
        ensures
            v == self@.p90,
    {
        self.p90
    }

    /// The 97.5th percentile, in millionths.
    pub fn p97_5(&self) -> (v: u128)
        ensures
            v == self@.p97_5,
    {
        self.p97_5
    }

    /// The 99th percentile, in millionths.
    pub fn p99(&self) -> (v: u128)
        ensures
            v == self@.p99,
    {
        self.p99
    }

    /// The 99.9th percentile, in millionths.
    pub fn p99_9(&self) -> (v: u128)
        ensures
            v == self@.p99_9,
    {
        self.p99_9
    }

    /// The 99.99th percentile, in millionths.
    pub fn p99_99(&self) -> (v: u128)
        ensures
            v == self@.p99_99,
    {
        self.p99_99
    }

    /// The 99.999th percentile, in millionths.
    pub fn p99_999(&self) -> (v: u128)
        ensures
            v == self@.p99_999,
    {
        self.p99_999
    }
}

/// Samples that come in ascending order are summarised as they stand:
/// sorting them changes nothing.
pub proof fn lemma_sorted_input_is_kept(s: Seq<u64>)
    requires
        ascending(s),
    ensures
        sorted(s) == s,
{
    lemma_ascending_is_sorted(s, s);
}

/// A summary depends on which samples there are and how often each occurs,
/// not on the order in which they come.
pub proof fn lemma_summarize_ignores_order(a: Seq<u64>, b: Seq<u64>)
    requires
        a.to_multiset() == b.to_multiset(),
    ensures
        sorted(a) == sorted(b),
        summarize(a) == summarize(b),
{
    lemma_sorted_is_ascending(a);
    lemma_ascending_is_sorted(sorted(a), b);
    vstd::seq_lib::to_multiset_len(a);
    vstd::seq_lib::to_multiset_len(b);
}

/// Summarising is repeatable: the result is a function of the samples alone,
/// so two summaries of the same samples are the same in every field, and so
/// are the two failures where there is no summary. For samples in ascending
/// order the summary is that of the samples as they stand.
pub proof fn lemma_summarize_is_repeatable(first: Seq<u64>, second: Seq<u64>)
    requires
        first == second,
        ascending(first),
    ensures
        summarize(first) == summarize(second),
        summarize(first) is Ok ==> summarize(second) == Ok::<StatsView, StatsError>(
            summary(first),
        ),
{
    lemma_sorted_input_is_kept(first);
}

/// A single sample is its own smallest and largest sample, its own mean and
/// every percentile of itself, and it deviates by nothing.
pub proof fn lemma_single_sample(x: u64)
    ensures
        summarize(seq![x]) == Ok::<StatsView, StatsError>(
            StatsView {
                min: (x * UNIT) as nat,
                max: (x * UNIT) as nat,
                average: (x * UNIT) as nat,
                stddev: 0,
                p2_5: (x * UNIT) as nat,
                p50: (x * UNIT) as nat,
                p75: (x * UNIT) as nat,
                p90: (x * UNIT) as nat,
                p97_5: (x * UNIT) as nat,
                p99: (x * UNIT) as nat,
                p99_9: (x * UNIT) as nat,
                p99_99: (x * UNIT) as nat,
                p99_999: (x * UNIT) as nat,
            },
        ),
{
    let s = seq![x];
    assert(ascending(s));
    lemma_sorted_input_is_kept(s);
    assert(s.drop_last() =~= Seq::<u64>::empty());
    assert(total(s.drop_last()) == 0);
    assert(total(s) == x);
    assert(mean(s) == x * UNIT);
    assert(deviation_squares(s.drop_last(), 1, x as int) == 0);
    assert((1 * x - x) * (1 * x - x) == 0) by (nonlinear_arith);
    assert(deviation_squares(s, 1, x as int) == 0);
    assert(UNIT * UNIT * 0 == 0);
    assert(variance(s) == 0);
    lemma_floor_sqrt_from_witness(0, 0);
    assert(stddev(s) == 0);
}

/// A single sample is every percentile of itself, whatever percentile is
/// asked for, also one beyond the hundredth.
pub proof fn lemma_single_sample_at_any_percentile(x: u64, p: nat)
    ensures
        percentile(seq![x], p) == x * UNIT,
{
}

/// A percentile of samples in ascending order lies between the smallest and
/// the largest of them.
pub proof fn lemma_percentile_is_within_bounds(t: Seq<u64>, p: nat)
    requires
        t.len() > 0,
        ascending(t),
        p <= 100_000,
    ensures
        t.first() * UNIT <= percentile(t, p) <= t.last() * UNIT,
{
    let steps = t.len() - 1;
    let position = p * steps;
    let below = position / 100_000;
    let part = position % 100_000;
    if t.len() > 1 {
        assert(0 <= position <= 100_000 * steps) by (nonlinear_arith)
            requires
                0 <= p <= 100_000,
                steps >= 0,
                position == p * steps,
        ;
        lemma_fundamental_div_mod(position, 100_000);
        assert(0 <= below <= steps);
        let low = t.first() as int;
        let high = t.last() as int;
        if part != 0 {
            assert(below < steps);
            let a = t[below] as int;
            let b = t[below + 1] as int;
            assert(low <= a <= high);
            assert(low <= b <= high);
            let v = (a * (100_000 - part) + b * part) * UNIT;
            assert((low * UNIT) * 100_000 <= v <= (high * UNIT) * 100_000) by (nonlinear_arith)
                requires
                    low <= a <= high,
                    low <= b <= high,
                    0 < part < 100_000,
                    v == (a * (100_000 - part) + b * part) * UNIT,
                    UNIT == 1_000_000,
            ;
            assert(low * UNIT <= v / 100_000 <= high * UNIT) by (nonlinear_arith)
                requires
                    (low * UNIT) * 100_000 <= v <= (high * UNIT) * 100_000,
            ;
        } else {
            let a = t[below] as int;
            assert(low <= a <= high);
            assert(low * UNIT <= a * UNIT <= high * UNIT) by (nonlinear_arith)
                requires
                    low <= a <= high,
                    UNIT == 1_000_000,
            ;
        }
    }
}

} // verus!
