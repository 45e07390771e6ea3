//! The statistics reducer: integer-truncated mean and standard deviation of
//! a list of trial durations, in nanosecond arithmetic.
//!
//! Every stage truncates: the mean is the floored quotient of the nanosecond
//! sum by the count, the variance is the floored quotient of the summed
//! squared deviations by the count, and the standard deviation is the floor
//! of the variance's square root.

use vstd::prelude::*;

use crate::duration::TrialDuration;

verus! {

/// Every duration in the sequence is well formed.
pub open spec fn all_wf(s: Seq<TrialDuration>) -> bool {
    forall|i: int| 0 <= i < s.len() ==> s[i].wf()
}

/// The sum of the durations' nanosecond counts.
pub open spec fn sum_nanos(s: Seq<TrialDuration>) -> int
    decreases s.len(),
{
    if s.len() == 0 {
        0
    } else {
        sum_nanos(s.drop_last()) + s.last().as_nanos_spec()
    }
}

/// The floored mean of the durations' nanosecond counts.
pub open spec fn mean_nanos(s: Seq<TrialDuration>) -> int
    recommends
        s.len() > 0,
{
    sum_nanos(s) / (s.len() as int)
}

/// The squared deviation of a nanosecond count `v` from a mean `m`.
pub open spec fn sq_dev(v: int, m: int) -> int {
    (v - m) * (v - m)
}

/// The sum of squared deviations of the durations from a mean `m`.
pub open spec fn sq_dev_sum(s: Seq<TrialDuration>, m: int) -> int
    decreases s.len(),
{
    if s.len() == 0 {
        0
    } else {
        sq_dev_sum(s.drop_last(), m) + sq_dev(s.last().as_nanos_spec(), m)
    }
}

/// The floored population variance of the durations' nanosecond counts.
pub open spec fn variance_nanos(s: Seq<TrialDuration>) -> int
    recommends
        s.len() > 0,
{
    sq_dev_sum(s, mean_nanos(s)) / (s.len() as int)
}

/// `r` is the floor of the square root of `n`.
pub open spec fn is_sqrt_floor(r: int, n: int) -> bool {
    &&& 0 <= r
    &&& r * r <= n
    &&& (r + 1) * (r + 1) > n
}

/// The floor of the square root of a nonnegative `n`.
pub open spec fn sqrt_floor(n: int) -> int {
    choose|r: int| is_sqrt_floor(r, n)
}

/// The floored standard deviation of the durations' nanosecond counts.
pub open spec fn std_dev_nanos(s: Seq<TrialDuration>) -> int
    recommends
        s.len() > 0,
{
    sqrt_floor(variance_nanos(s))
}

/// For every nonnegative `n` some floor square root exists, so `sqrt_floor`
/// satisfies its defining property.
pub proof fn lemma_sqrt_floor_exists(n: int)
    requires
        0 <= n,
    ensures
        is_sqrt_floor(sqrt_floor(n), n),
    decreases n,
{
    if n == 0 {
        assert(is_sqrt_floor(0, 0));
    } else {
        lemma_sqrt_floor_exists(n - 1);
        let r = sqrt_floor(n - 1);
        if (r + 1) * (r + 1) > n {
            assert(is_sqrt_floor(r, n));
        } else {
            assert((r + 1) * (r + 1) == n);
            assert((r + 2) * (r + 2) > n) by (nonlinear_arith)
                requires
                    0 <= r,
                    (r + 1) * (r + 1) == n;
            assert(is_sqrt_floor(r + 1, n));
        }
    }
    assert(exists|r: int| is_sqrt_floor(r, n));
}

/// The floor square root is unique: any `r` with the defining property
/// equals `sqrt_floor(n)`.
pub proof fn lemma_sqrt_floor_unique(r: int, n: int)
    requires
        is_sqrt_floor(r, n),
    ensures
        r == sqrt_floor(n),
{
    assert(0 <= r * r) by (nonlinear_arith)
        requires
            0 <= r,
    ;
    lemma_sqrt_floor_exists(n);
    let q = sqrt_floor(n);
    if r < q {
        assert(false) by (nonlinear_arith)
            requires
                0 <= r < q,
                q * q <= n,
                (r + 1) * (r + 1) > n;
    } else if q < r {
        assert(false) by (nonlinear_arith)
            requires
                0 <= q < r,
                r * r <= n,
                (q + 1) * (q + 1) > n;
    }
}

/// The floor of the square root of `n`, by bisection.
pub fn isqrt_u128(n: u128) -> (r: u128)
    ensures
        is_sqrt_floor(r as int, n as int),
        r == sqrt_floor(n as int),
{
    let mut lo: u128 = 0;
    let mut hi: u128 = 1u128 << 64;
    proof {
        assert((1u128 << 64) == 0x1_0000_0000_0000_0000u128) by (bit_vector);
        assert((hi as int) * (hi as int) > n as int) by (nonlinear_arith)
            requires
                hi == 0x1_0000_0000_0000_0000u128,
                n <= u128::MAX;
    }
    while hi - lo > 1
        invariant
            lo < hi,
            hi <= 0x1_0000_0000_0000_0000u128,
            (lo as int) * (lo as int) <= n as int,
            (hi as int) * (hi as int) > n as int,
        decreases hi - lo,
    {
        let mid: u128 = lo + (hi - lo) / 2;
        proof {
            assert((mid as int) * (mid as int) < u128::MAX as int) by (nonlinear_arith)
                requires
                    mid < 0x1_0000_0000_0000_0000u128;
        }
        if mid * mid <= n {
            lo = mid;
        } else {
            hi = mid;
        }
    }
    proof {
        assert(hi == lo + 1);
        lemma_sqrt_floor_unique(lo as int, n as int);
    }
    lo
}

/// Extending a prefix by one element adds that element's nanosecond count.
proof fn lemma_sum_take_succ(s: Seq<TrialDuration>, i: int)
    requires
        0 <= i < s.len(),
    ensures
        sum_nanos(s.take(i + 1)) == sum_nanos(s.take(i)) + s[i].as_nanos_spec(),
{
    assert(s.take(i + 1).drop_last() =~= s.take(i));
    assert(s.take(i + 1).last() == s[i]);
}

/// Nanosecond counts are nonnegative, so the sum is nonnegative.
proof fn lemma_sum_nonneg(s: Seq<TrialDuration>)
    ensures
        sum_nanos(s) >= 0,
    decreases s.len(),
{
    if s.len() > 0 {
        lemma_sum_nonneg(s.drop_last());
    }
}

/// A prefix sum never exceeds the whole sum.
proof fn lemma_sum_take_le(s: Seq<TrialDuration>, i: int)
    requires
        0 <= i <= s.len(),
    ensures
        sum_nanos(s.take(i)) <= sum_nanos(s),
    decreases s.len() - i,
{
    if i == s.len() {
        assert(s.take(i) =~= s);
    } else {
        lemma_sum_take_succ(s, i);
        lemma_sum_take_le(s, i + 1);
    }
}

/// The sum of well-formed durations is at most the count times the largest
/// representable duration.
proof fn lemma_sum_le_count_max(s: Seq<TrialDuration>)
    requires
        all_wf(s),
    ensures
        sum_nanos(s) <= s.len() * TrialDuration::max_total_nanos(),
    decreases s.len(),
{
    if s.len() > 0 {
        let t = s.drop_last();
        assert(all_wf(t)) by {
            assert(forall|i: int| 0 <= i < t.len() ==> t[i] == s[i]);
        }
        lemma_sum_le_count_max(t);
        s.last().lemma_wf_bounds();
        assert((s.len() - 1) * TrialDuration::max_total_nanos() + TrialDuration::max_total_nanos()
            == s.len() * TrialDuration::max_total_nanos()) by (nonlinear_arith);
    }
}

/// The floored mean of well-formed durations lies within the representable
/// range of a single duration.
pub proof fn lemma_mean_bounds(s: Seq<TrialDuration>)
    requires
        s.len() > 0,
        all_wf(s),
    ensures
        0 <= mean_nanos(s) <= TrialDuration::max_total_nanos(),
{
    lemma_sum_nonneg(s);
    lemma_sum_le_count_max(s);
    vstd::arithmetic::div_mod::lemma_div_pos_is_pos(sum_nanos(s), s.len() as int);
    vstd::arithmetic::div_mod::lemma_div_is_ordered(
        sum_nanos(s),
        s.len() * TrialDuration::max_total_nanos(),
        s.len() as int,
    );
    vstd::arithmetic::div_mod::lemma_div_multiples_vanish(
        TrialDuration::max_total_nanos(),
        s.len() as int,
    );
}

/// A squared deviation is nonnegative.
proof fn lemma_sq_dev_nonneg(v: int, m: int)
    ensures
        sq_dev(v, m) >= 0,
{
    assert((v - m) * (v - m) >= 0) by (nonlinear_arith);
}

/// Extending a prefix by one element adds that element's squared deviation.
proof fn lemma_sq_dev_sum_take_succ(s: Seq<TrialDuration>, m: int, i: int)
    requires
        0 <= i < s.len(),
    ensures
        sq_dev_sum(s.take(i + 1), m) == sq_dev_sum(s.take(i), m) + sq_dev(
            s[i].as_nanos_spec(),
            m,
        ),
{
    assert(s.take(i + 1).drop_last() =~= s.take(i));
    assert(s.take(i + 1).last() == s[i]);
}

/// Squared deviations are nonnegative, so their sum is nonnegative.
proof fn lemma_sq_dev_sum_nonneg(s: Seq<TrialDuration>, m: int)
    ensures
        sq_dev_sum(s, m) >= 0,
    decreases s.len(),
{
    if s.len() > 0 {
        lemma_sq_dev_sum_nonneg(s.drop_last(), m);
        lemma_sq_dev_nonneg(s.last().as_nanos_spec(), m);
    }
}

/// A prefix of the squared-deviation sum never exceeds the whole sum.
proof fn lemma_sq_dev_sum_take_le(s: Seq<TrialDuration>, m: int, i: int)
    requires
        0 <= i <= s.len(),
    ensures
        sq_dev_sum(s.take(i), m) <= sq_dev_sum(s, m),
    decreases s.len() - i,
{
    if i == s.len() {
        assert(s.take(i) =~= s);
    } else {
        lemma_sq_dev_sum_take_succ(s, m, i);
        lemma_sq_dev_nonneg(s[i].as_nanos_spec(), m);
        lemma_sq_dev_sum_take_le(s, m, i + 1);
    }
}

/// The sum of a sequence of one repeated duration is the count times its
/// nanosecond value.
proof fn lemma_sum_all_equal(s: Seq<TrialDuration>, d: TrialDuration)
    requires
        forall|i: int| 0 <= i < s.len() ==> s[i] == d,
    ensures
        sum_nanos(s) == s.len() * d.as_nanos_spec(),
    decreases s.len(),
{
    if s.len() == 0 {
    } else {
        let t = s.drop_last();
        assert(forall|i: int| 0 <= i < t.len() ==> t[i] == d);
        lemma_sum_all_equal(t, d);
        assert((s.len() - 1) * d.as_nanos_spec() + d.as_nanos_spec() == s.len()
            * d.as_nanos_spec()) by (nonlinear_arith);
    }
}

/// The mean of a list of equal-valued durations is exactly the common
/// value: the integer truncation has no effect.
pub proof fn lemma_mean_all_equal(s: Seq<TrialDuration>, d: TrialDuration)
    requires
        s.len() > 0,
        forall|i: int| 0 <= i < s.len() ==> s[i] == d,
    ensures
        mean_nanos(s) == d.as_nanos_spec(),
{
    lemma_sum_all_equal(s, d);
    assert((s.len() * d.as_nanos_spec()) / (s.len() as int) == d.as_nanos_spec())
        by (nonlinear_arith)
        requires
            s.len() >= 1,
    ;
}

/// Every squared deviation from the common value vanishes.
proof fn lemma_sq_dev_sum_all_equal(s: Seq<TrialDuration>, d: TrialDuration)
    requires
        forall|i: int| 0 <= i < s.len() ==> s[i] == d,
    ensures
        sq_dev_sum(s, d.as_nanos_spec()) == 0,
    decreases s.len(),
{
    if s.len() > 0 {
        let t = s.drop_last();
        assert(forall|i: int| 0 <= i < t.len() ==> t[i] == d);
        lemma_sq_dev_sum_all_equal(t, d);
        assert(s.last() == d);
        assert(sq_dev(d.as_nanos_spec(), d.as_nanos_spec()) == 0) by (nonlinear_arith);
    }
}

/// The standard deviation of a list of equal-valued durations is zero, as
/// is its variance.
pub proof fn lemma_std_dev_all_equal(s: Seq<TrialDuration>, d: TrialDuration)
    requires
        s.len() > 0,
        forall|i: int| 0 <= i < s.len() ==> s[i] == d,
    ensures
        variance_nanos(s) == 0,
        std_dev_nanos(s) == 0,
{
    lemma_mean_all_equal(s, d);
    lemma_sq_dev_sum_all_equal(s, d);
    assert(0int / (s.len() as int) == 0) by (nonlinear_arith)
        requires
            s.len() >= 1,
    ;
    assert(is_sqrt_floor(0, 0));
    lemma_sqrt_floor_unique(0, variance_nanos(s));
}

/// For a list of exactly two durations with distinct nanosecond values `a`
/// and `b`, the mean is the floored midpoint and the standard deviation is
/// the floored square root of the floored half-sum of the two squared
/// deviations from that mean.
pub proof fn lemma_stats_two_entries(a: TrialDuration, b: TrialDuration)
    requires
        a.wf(),
        b.wf(),
        a.as_nanos_spec() != b.as_nanos_spec(),
    ensures
        mean_nanos(seq![a, b]) == (a.as_nanos_spec() + b.as_nanos_spec()) / 2,
        std_dev_nanos(seq![a, b]) == sqrt_floor(
            (sq_dev(a.as_nanos_spec(), mean_nanos(seq![a, b])) + sq_dev(
                b.as_nanos_spec(),
                mean_nanos(seq![a, b]),
            )) / 2,
        ),
{
    let s = seq![a, b];
    assert(s.drop_last() =~= seq![a]);
    assert(seq![a].drop_last() =~= Seq::<TrialDuration>::empty());
    assert(sum_nanos(Seq::<TrialDuration>::empty()) == 0);
    assert(sum_nanos(seq![a]) == a.as_nanos_spec());
    assert(sum_nanos(s) == a.as_nanos_spec() + b.as_nanos_spec());
    let m = mean_nanos(s);
    assert(sq_dev_sum(Seq::<TrialDuration>::empty(), m) == 0);
    assert(sq_dev_sum(seq![a], m) == sq_dev(a.as_nanos_spec(), m));
    assert(sq_dev_sum(s, m) == sq_dev(a.as_nanos_spec(), m) + sq_dev(b.as_nanos_spec(), m));
}

/// Reduces a list of trial durations to its floored mean and floored
/// standard deviation, in nanosecond arithmetic; an empty list has no
/// statistics and yields nothing.
///
/// The two bounds required of the nanosecond sums are forced by the machine
/// arithmetic: both running sums are held in the widest machine integer.
pub fn average_duration(durations: Vec<TrialDuration>) -> (r: Option<
    (TrialDuration, TrialDuration),
>)
    requires
        all_wf(durations@),
        sum_nanos(durations@) <= u128::MAX,
        sq_dev_sum(durations@, mean_nanos(durations@)) <= u128::MAX,
    ensures
        (r is None) <==> durations@.len() == 0,
        durations@.len() > 0 ==> (r matches Some(p) && {
            &&& p.0.wf()
            &&& p.1.wf()
            &&& p.0.as_nanos_spec() == mean_nanos(durations@)
            &&& p.1.as_nanos_spec() == std_dev_nanos(durations@)
            &&& is_sqrt_floor(p.1.as_nanos_spec(), variance_nanos(durations@))
        }),
{
    let ghost s = durations@;
    let n: usize = durations.len();
    if n == 0 {
        return None;
    }
    let mut total: u128 = 0;
    let mut i: usize = 0;
    while i < n
        invariant
            0 <= i <= n,
            n == s.len(),
            s == durations@,
            all_wf(s),
            sum_nanos(s) <= u128::MAX,
            total == sum_nanos(s.take(i as int)),
        decreases n - i,
    {
        proof {
            lemma_sum_take_succ(s, i as int);
            lemma_sum_take_le(s, i as int + 1);
        }
        let d: TrialDuration = durations[i];
        total = total + crate::duration::duration_to_nanos(&d);
        i = i + 1;
    }
    proof {
        assert(s.take(n as int) =~= s);
    }
    let mean_total: u128 = total / (n as u128);
    proof {
        lemma_mean_bounds(s);
        assert(mean_total as int == mean_nanos(s));
    }
    let mean_dur: TrialDuration = TrialDuration::from_total_nanos(mean_total);
    let ghost m = mean_nanos(s);
    let mut acc: u128 = 0;
    let mut j: usize = 0;
    while j < n
        invariant
            0 <= j <= n,
            n == s.len(),
            s == durations@,
            all_wf(s),
            mean_total as int == m,
            m == mean_nanos(s),
            sq_dev_sum(s, m) <= u128::MAX,
            acc == sq_dev_sum(s.take(j as int), m),
        decreases n - j,
    {
        let d: TrialDuration = durations[j];
        let v: u128 = crate::duration::duration_to_nanos(&d);
        let diff: u128 = if v >= mean_total {
            v - mean_total
        } else {
            mean_total - v
        };
        proof {
            assert((diff as int) * (diff as int) == sq_dev(v as int, m)) by (nonlinear_arith)
                requires
                    diff as int == v as int - m || diff as int == m - v as int,
                    sq_dev(v as int, m) == (v as int - m) * (v as int - m);
            lemma_sq_dev_sum_take_succ(s, m, j as int);
            lemma_sq_dev_sum_take_le(s, m, j as int + 1);
            lemma_sq_dev_sum_nonneg(s.take(j as int), m);
        }
        let term: u128 = diff * diff;
        acc = acc + term;
        j = j + 1;
    }
    proof {
        assert(s.take(n as int) =~= s);
    }
    let variance: u128 = acc / (n as u128);
    let std_total: u128 = isqrt_u128(variance);
    proof {
        assert(variance as int == variance_nanos(s));
        assert(std_total as int <= u64::MAX) by (nonlinear_arith)
            requires
                (std_total as int) * (std_total as int) <= u128::MAX,
        ;
    }
    let std_dur: TrialDuration = TrialDuration::from_total_nanos(std_total);
    Some((mean_dur, std_dur))
}

/// The reduced statistics of one payload size's trial loop: the size and
/// the floored mean and standard deviation of its recorded durations.
pub struct SizeResult {
    pub size: usize,
    pub mean: TrialDuration,
    pub std_dev: TrialDuration,
}

/// Reduces one payload size's duration list to its result record; a size
/// with no recorded durations has no result.
pub fn size_result(size: usize, durations: Vec<TrialDuration>) -> (r: Option<SizeResult>)
    requires
        all_wf(durations@),
        sum_nanos(durations@) <= u128::MAX,
        sq_dev_sum(durations@, mean_nanos(durations@)) <= u128::MAX,
    ensures
        (r is None) <==> durations@.len() == 0,
        durations@.len() > 0 ==> (r matches Some(res) && {
            &&& res.size == size
            &&& res.mean.wf()
            &&& res.std_dev.wf()
            &&& res.mean.as_nanos_spec() == mean_nanos(durations@)
            &&& res.std_dev.as_nanos_spec() == std_dev_nanos(durations@)
        }),
{
    match average_duration(durations) {
        None => None,
        Some((mean, std_dev)) => Some(SizeResult { size, mean, std_dev }),
    }
}

} // verus!
