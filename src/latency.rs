//! Statistics over latency samples in nanoseconds and over per-window
//! request counts: mean, maximum, standard deviation, prefix-mean
//! percentiles, and the trimming of the per-window series.

use vstd::prelude::*;

verus! {

/// Parts per million that make a whole: a percentile `p` is given as
/// `p * 1_000_000`.
pub const PPM: u32 = 1_000_000;

/// The sum of the values of `s`.
pub open spec fn sum_of(s: Seq<u64>) -> int
    decreases s.len(),
{
    if s.len() == 0 {
        0
    } else {
        sum_of(s.drop_last()) + s.last()
    }
}

/// The mean of `s`, rounded down; zero for no values.
pub open spec fn mean_of(s: Seq<u64>) -> int {
    if s.len() == 0 {
        0
    } else {
        sum_of(s) / s.len() as int
    }
}

/// The largest value of `s`; zero for no values.
pub open spec fn max_of(s: Seq<u64>) -> u64
    decreases s.len(),
{
    if s.len() == 0 {
        0
    } else if s.last() > max_of(s.drop_last()) {
        s.last()
    } else {
        max_of(s.drop_last())
    }
}

/// The sum of the squared distances of the values of `s` from `m`.
pub open spec fn sq_dev_sum(s: Seq<u64>, m: int) -> int
    decreases s.len(),
{
    if s.len() == 0 {
        0
    } else {
        sq_dev_sum(s.drop_last(), m) + (s.last() - m) * (s.last() - m)
    }
}

/// `r` is the square root of `x`, rounded down.
pub open spec fn is_floor_sqrt(r: int, x: int) -> bool {
    0 <= r && r * r <= x < (r + 1) * (r + 1)
}

/// The square root of `x`, rounded down.
pub open spec fn floor_sqrt_of(x: int) -> int {
    choose|r: int| is_floor_sqrt(r, x)
}

/// The population standard deviation of `s` in whole units, rounded down:
/// zero for no values, `u64::MAX` when the squared distances from the mean do
/// not fit in 128 bits.
pub open spec fn stdev_of(s: Seq<u64>) -> u64 {
    if s.len() == 0 {
        0
    } else if !dev_fits(s) {
        u64::MAX
    } else {
        floor_sqrt_of(sq_dev_sum(s, mean_of(s)) / s.len() as int) as u64
    }
}

/// The square root rounded down is unique.
pub proof fn lemma_floor_sqrt_unique(r: int, x: int)
    requires
        is_floor_sqrt(r, x),
    ensures
        floor_sqrt_of(x) == r,
{
    let q = floor_sqrt_of(x);
    assert(is_floor_sqrt(q, x));
    if q < r {
        assert((q + 1) * (q + 1) <= r * r) by (nonlinear_arith)
            requires
                0 <= q < r,
        ;
    } else if r < q {
        assert((r + 1) * (r + 1) <= q * q) by (nonlinear_arith)
            requires
                0 <= r < q,
        ;
    }
}

/// The squared distances of `s` from its mean fit in 128 bits.
pub open spec fn dev_fits(s: Seq<u64>) -> bool {
    sq_dev_sum(s, mean_of(s)) <= u128::MAX
}

/// The values ascend.
pub open spec fn is_sorted(s: Seq<u64>) -> bool {
    forall|i: int, j: int| 0 <= i <= j < s.len() ==> s[i] <= s[j]
}

/// The length of the prefix that percentile `ppm` (in parts per million)
/// selects among `n` values: `⌊n · p⌋`.
pub open spec fn prefix_len(n: nat, ppm: u32) -> int {
    (n * ppm) / (PPM as int)
}

/// The mean of the first `k` values of `s`.
pub open spec fn prefix_mean(s: Seq<u64>, k: int) -> int {
    mean_of(s.take(k))
}

/// For each percentile of `ps` in order, the percentile and the mean of the
/// prefix of `s` that it selects; a percentile whose prefix would be longer
/// than `s` is left out, and nothing is reported for no values.
pub open spec fn latencies_of(s: Seq<u64>, ps: Seq<u32>) -> Seq<(u32, u64)>
    decreases ps.len(),
{
    if ps.len() == 0 || s.len() == 0 {
        Seq::empty()
    } else {
        let earlier = latencies_of(s, ps.drop_last());
        let k = prefix_len(s.len(), ps.last());
        if k > s.len() {
            earlier
        } else {
            earlier.push((ps.last(), prefix_mean(s, k) as u64))
        }
    }
}

/// The per-window series without a leading zero window (warm-up) and, when
/// two or more windows remain, without the last one (a partial window).
pub open spec fn trimmed(s: Seq<u64>) -> Seq<u64> {
    let a = if s.len() > 0 && s[0] == 0 {
        s.subrange(1, s.len() as int)
    } else {
        s
    };
    if a.len() >= 2 {
        a.drop_last()
    } else {
        a
    }
}

/// Values no larger than `m` sum to at most `m` per value.
pub proof fn lemma_sum_bounded(s: Seq<u64>, m: int)
    requires
        0 <= m,
        forall|i: int| 0 <= i < s.len() ==> s[i] <= m,
    ensures
        0 <= sum_of(s) <= s.len() * m,
    decreases s.len(),
{
    if s.len() > 0 {
        lemma_sum_bounded(s.drop_last(), m);
        let n = s.len() as int;
        assert(sum_of(s.drop_last()) + s.last() <= n * m) by (nonlinear_arith)
            requires
                sum_of(s.drop_last()) <= (n - 1) * m,
                s.last() <= m,
        ;
    }
}

/// The mean of values no larger than `m` is no larger than `m`.
pub proof fn lemma_mean_bounded(s: Seq<u64>, m: int)
    requires
        0 <= m,
        forall|i: int| 0 <= i < s.len() ==> s[i] <= m,
    ensures
        0 <= mean_of(s) <= m,
{
    lemma_sum_bounded(s, m);
    if s.len() > 0 {
        let n = s.len() as int;
        let t = sum_of(s);
        assert(0 <= t / n <= m) by (nonlinear_arith)
            requires
                0 <= t <= n * m,
                0 < n,
        ;
    }
}

/// No value of `s` exceeds its maximum.
pub proof fn lemma_max_bounds(s: Seq<u64>)
    ensures
        forall|i: int| 0 <= i < s.len() ==> s[i] <= max_of(s),
    decreases s.len(),
{
    if s.len() > 0 {
        lemma_max_bounds(s.drop_last());
        assert forall|i: int| 0 <= i < s.len() implies s[i] <= max_of(s) by {
            if i < s.len() - 1 {
                assert(s[i] == s.drop_last()[i]);
            }
        }
    }
}

/// The last value of an ascending sequence is its maximum.
pub proof fn lemma_sorted_max_is_last(s: Seq<u64>)
    requires
        is_sorted(s),
        s.len() > 0,
    ensures
        max_of(s) == s.last(),
    decreases s.len(),
{
    if s.len() > 1 {
        let d = s.drop_last();
        assert(is_sorted(d));
        lemma_sorted_max_is_last(d);
        assert(d.last() == s[s.len() - 2]);
        assert(s[s.len() - 2] <= s[s.len() - 1]);
    } else {
        assert(max_of(s.drop_last()) == 0);
    }
}

/// The sum of a longer prefix adds the next value.
proof fn lemma_take_next<T>(s: Seq<T>, i: int)
    requires
        0 <= i < s.len(),
    ensures
        s.take(i + 1).drop_last() == s.take(i),
        s.take(i + 1).last() == s[i],
{
    assert(s.take(i + 1).drop_last() =~= s.take(i));
}

/// Squared distances only add up.
proof fn lemma_sq_dev_prefix_grows(s: Seq<u64>, m: int, i: int)
    requires
        0 <= i <= s.len(),
    ensures
        sq_dev_sum(s.take(i), m) <= sq_dev_sum(s, m),
    decreases s.len() - i,
{
    if i < s.len() {
        lemma_sq_dev_prefix_grows(s, m, i + 1);
        lemma_take_next(s, i);
        assert((s[i] - m) * (s[i] - m) >= 0) by (nonlinear_arith);
    } else {
        assert(s.take(i) =~= s);
    }
}

/// The percentiles ascend.
pub open spec fn percentiles_ascend(ps: Seq<u32>) -> bool {
    forall|i: int, j: int| 0 <= i <= j < ps.len() ==> ps[i] <= ps[j]
}

/// Every reported percentile is at most the last one requested.
proof fn lemma_latencies_below_last(s: Seq<u64>, ps: Seq<u32>)
    requires
        percentiles_ascend(ps),
        ps.len() > 0,
    ensures
        forall|i: int|
            0 <= i < latencies_of(s, ps).len() ==> #[trigger] latencies_of(s, ps)[i].0
                <= ps.last(),
    decreases ps.len(),
{
    let d = ps.drop_last();
    let l = latencies_of(s, ps);
    let prev = latencies_of(s, d);
    if d.len() > 0 {
        assert(percentiles_ascend(d));
        lemma_latencies_below_last(s, d);
        assert(d.last() <= ps.last());
    } else {
        assert(prev.len() == 0);
    }
    if s.len() > 0 {
        assert forall|i: int| 0 <= i < l.len() implies #[trigger] l[i].0 <= ps.last() by {
            if i < prev.len() {
                assert(l[i] == prev[i]);
            }
        }
    }
}

/// The prefix mean of any percentile is at most the largest value.
proof fn lemma_prefix_mean_bounded(s: Seq<u64>, k: int)
    requires
        0 <= k <= s.len(),
    ensures
        0 <= prefix_mean(s, k) <= max_of(s),
{
    lemma_max_bounds(s);
    let t = s.take(k);
    assert forall|i: int| 0 <= i < t.len() implies t[i] <= max_of(s) by {
        assert(t[i] == s[i]);
    }
    lemma_mean_bounded(t, max_of(s) as int);
}

/// With the percentiles requested in ascending order, the latencies come out
/// in ascending order of percentile, and none exceeds the largest sample.
pub proof fn lemma_latencies_ordered_and_bounded(s: Seq<u64>, ps: Seq<u32>)
    requires
        percentiles_ascend(ps),
    ensures
        forall|i: int, j: int|
            0 <= i <= j < latencies_of(s, ps).len() ==> latencies_of(s, ps)[i].0
                <= latencies_of(s, ps)[j].0,
        forall|i: int|
            0 <= i < latencies_of(s, ps).len() ==> #[trigger] latencies_of(s, ps)[i].1 <= max_of(
                s,
            ),
    decreases ps.len(),
{
    if ps.len() > 0 && s.len() > 0 {
        let d = ps.drop_last();
        let l = latencies_of(s, ps);
        let prev = latencies_of(s, d);
        assert(percentiles_ascend(d));
        lemma_latencies_ordered_and_bounded(s, d);
        let k = prefix_len(s.len(), ps.last());
        if k <= s.len() {
            assert(k >= 0) by (nonlinear_arith)
                requires
                    k == (s.len() * ps.last()) / (PPM as int),
            ;
            lemma_prefix_mean_bounded(s, k);
            if d.len() > 0 {
                lemma_latencies_below_last(s, d);
                assert(d.last() <= ps.last());
            } else {
                assert(prev.len() == 0);
            }
            assert(l == prev.push((ps.last(), prefix_mean(s, k) as u64)));
            assert forall|i: int, j: int| 0 <= i <= j < l.len() implies l[i].0 <= l[j].0 by {
                if j < prev.len() {
                    assert(l[i] == prev[i] && l[j] == prev[j]);
                } else if i < prev.len() {
                    assert(l[i] == prev[i]);
                    assert(prev[i].0 <= ps.last());
                }
            }
            assert forall|i: int| 0 <= i < l.len() implies #[trigger] l[i].1 <= max_of(s) by {
                if i < prev.len() {
                    assert(l[i] == prev[i]);
                }
            }
        } else {
            assert(l == prev);
        }
    }
}

/// Relies on num's `Roots::sqrt` for `u128`: the truncated principal square
/// root, `r² ≤ x < (r+1)²`.
#[verifier::external_body]
fn floor_sqrt(x: u128) -> (r: u128)
    ensures
        is_floor_sqrt(r as int, x as int),
{
    num::integer::Roots::sqrt(&x)
}

/// Relies on `slice::sort` for `u64`: the values end up in ascending order,
/// each kept as often as it was there.
#[verifier::external_body]
pub(crate) fn sort_ascending(v: &mut Vec<u64>)
    ensures
        is_sorted(final(v)@),
        final(v)@.to_multiset() == old(v)@.to_multiset(),
{
    v.sort();
}

/// The sum of the first `k` values of `v`.
pub fn prefix_sum(v: &Vec<u64>, k: usize) -> (r: u128)
    requires
        k <= v.len(),
    ensures
        r == sum_of(v@.take(k as int)),
{
    let mut total: u128 = 0;
    let mut i: usize = 0;
    while i < k
        invariant
            i <= k <= v.len(),
            total == sum_of(v@.take(i as int)),
        decreases k - i,
    {
        proof {
            lemma_take_next(v@, i as int);
            lemma_sum_bounded(v@.take(i as int), u64::MAX as int);
            assert(i * (u64::MAX as int) + u64::MAX < u128::MAX) by (nonlinear_arith)
                requires
                    i < usize::MAX,
            ;
        }
        total = total + v[i] as u128;
        i = i + 1;
    }
    total
}

/// The mean of the first `k` values of `v`, rounded down; zero when `k` is 0.
pub fn prefix_mean_nanos(v: &Vec<u64>, k: usize) -> (r: u64)
    requires
        k <= v.len(),
    ensures
        r == prefix_mean(v@, k as int),
{
    if k == 0 {
        return 0;
    }
    let total = prefix_sum(v, k);
    proof {
        let t = v@.take(k as int);
        assert forall|i: int| 0 <= i < t.len() implies t[i] <= u64::MAX as int by {}
        lemma_mean_bounded(t, u64::MAX as int);
    }
    (total / k as u128) as u64
}

/// The mean of `v`, rounded down; zero when `v` is empty.
pub fn mean_nanos(v: &Vec<u64>) -> (r: u64)
    ensures
        r == mean_of(v@),
{
    let r = prefix_mean_nanos(v, v.len());
    assert(v@.take(v.len() as int) =~= v@);
    r
}

/// The largest value of `v`; zero when `v` is empty.
pub fn max_nanos(v: &Vec<u64>) -> (r: u64)
    ensures
        r == max_of(v@),
{
    let mut best: u64 = 0;
    let mut i: usize = 0;
    while i < v.len()
        invariant
            i <= v.len(),
            best == max_of(v@.take(i as int)),
        decreases v.len() - i,
    {
        proof {
            lemma_take_next(v@, i as int);
        }
        if v[i] > best {
            best = v[i];
        }
        i = i + 1;
    }
    assert(v@.take(v.len() as int) =~= v@);
    best
}

/// The population standard deviation of `v`, in whole units, rounded down:
/// the floor square root of the mean squared distance from the (rounded
/// down) mean. Zero when `v` is empty; `u64::MAX` when the squared distances
/// do not fit in 128 bits.
pub fn stdev_nanos(v: &Vec<u64>) -> (r: u64)
    ensures
        r == stdev_of(v@),
        v@.len() == 0 ==> r == 0,
        v@.len() > 0 && dev_fits(v@) ==> is_floor_sqrt(
            r as int,
            sq_dev_sum(v@, mean_of(v@)) / v@.len() as int,
        ),
        !dev_fits(v@) ==> r == u64::MAX,
{
    let n = v.len();
    if n == 0 {
        return 0;
    }
    let mean = mean_nanos(v);
    let ghost m = mean as int;
    let mut acc: u128 = 0;
    let mut i: usize = 0;
    while i < n
        invariant
            n == v.len(),
            i <= n,
            m == mean as int,
            m == mean_of(v@),
            acc == sq_dev_sum(v@.take(i as int), m),
        decreases n - i,
    {
        proof {
            lemma_take_next(v@, i as int);
        }
        let x = v[i];
        let d: u64 = if x >= mean {
            x - mean
        } else {
            mean - x
        };
        assert((d as int) * (d as int) == (x - m) * (x - m)) by (nonlinear_arith)
            requires
                d == x - m || d == m - x,
        ;
        assert((d as int) * (d as int) <= u128::MAX) by (nonlinear_arith)
            requires
                d <= u64::MAX,
        ;
        let sq: u128 = (d as u128) * (d as u128);
        match acc.checked_add(sq) {
            Some(next) => {
                acc = next;
            },
            None => {
                proof {
                    let t = v@.take(i + 1);
                    assert(sq_dev_sum(t, m) == sq_dev_sum(t.drop_last(), m) + (t.last() - m) * (
                    t.last() - m));
                    lemma_sq_dev_prefix_grows(v@, m, i + 1);
                }
                return u64::MAX;
            },
        }
        i = i + 1;
    }
    assert(v@.take(n as int) =~= v@);
    let variance = acc / n as u128;
    let root = floor_sqrt(variance);
    assert(root < 0x1_0000_0000_0000_0000) by (nonlinear_arith)
        requires
            root * root <= variance,
            variance <= u128::MAX,
    ;
    proof {
        lemma_floor_sqrt_unique(root as int, variance as int);
    }
    root as u64
}

/// For each percentile of `ps` (parts per million), in order, the mean of
/// the prefix of `v` that it selects. For `v` ascending, this is the mean of
/// the lowest `⌊n · p⌋` values.
pub fn percentile_latencies(v: &Vec<u64>, ps: &Vec<u32>) -> (r: Vec<(u32, u64)>)
    ensures
        r@ == latencies_of(v@, ps@),
{
    let mut out: Vec<(u32, u64)> = Vec::new();
    let n = v.len();
    if n == 0 {
        return out;
    }
    let mut j: usize = 0;
    while j < ps.len()
        invariant
            n == v.len(),
            n > 0,
            j <= ps.len(),
            out@ == latencies_of(v@, ps@.take(j as int)),
        decreases ps.len() - j,
    {
        proof {
            lemma_take_next(ps@, j as int);
        }
        let p = ps[j];
        assert(n * p <= u128::MAX) by (nonlinear_arith)
            requires
                n <= usize::MAX,
                p <= u32::MAX,
        ;
        let k: u128 = (n as u128) * (p as u128) / (PPM as u128);
        if k <= n as u128 {
            let mean = prefix_mean_nanos(v, k as usize);
            out.push((p, mean));
        }
        j = j + 1;
    }
    assert(ps@.take(ps.len() as int) =~= ps@);
    out
}

/// The per-window series without its warm-up and partial windows.
pub fn trim_samples(s: &Vec<u64>) -> (r: Vec<u64>)
    ensures
        r@ == trimmed(s@),
{
    let from: usize = if s.len() > 0 && s[0] == 0 {
        1
    } else {
        0
    };
    let mut to: usize = s.len();
    if to - from >= 2 {
        to = to - 1;
    }
    let mut out: Vec<u64> = Vec::new();
    let mut i: usize = from;
    while i < to
        invariant
            from <= i <= to <= s.len(),
            out@ == s@.subrange(from as int, i as int),
        decreases to - i,
    {
        out.push(s[i]);
        i = i + 1;
    }
    out
}

} // verus!
