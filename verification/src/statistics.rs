//! Exact statistics of a list of 32-bit samples: sums, extremes, and the
//! comparison of the population variance with one.
//!
//! The population variance of `n` samples is `spread / n^2`, where
//! `spread = n * (sum of squares) - (sum)^2`; working with `spread` keeps
//! everything in the integers.

use vstd::prelude::*;

verus! {

/// The sum of the samples.
pub open spec fn total(s: Seq<u32>) -> int
    decreases s.len(),
{
    if s.len() == 0 {
        0
    } else {
        total(s.drop_last()) + s.last()
    }
}

/// The sum of the squares of the samples.
pub open spec fn total_squares(s: Seq<u32>) -> int
    decreases s.len(),
{
    if s.len() == 0 {
        0
    } else {
        total_squares(s.drop_last()) + s.last() * s.last()
    }
}

/// The sum of the squares of the distances of the samples from `q`.
pub open spec fn shifted_squares(s: Seq<u32>, q: int) -> int
    decreases s.len(),
{
    if s.len() == 0 {
        0
    } else {
        shifted_squares(s.drop_last(), q) + (s.last() - q) * (s.last() - q)
    }
}

/// The number of samples below `limit`.
pub open spec fn count_below(s: Seq<u32>, limit: u32) -> int
    decreases s.len(),
{
    if s.len() == 0 {
        0
    } else {
        count_below(s.drop_last(), limit) + if s.last() < limit {
            1int
        } else {
            0int
        }
    }
}

/// `n^2` times the population variance of the `n` samples.
pub open spec fn spread(s: Seq<u32>) -> int {
    s.len() * total_squares(s) - total(s) * total(s)
}

/// The population variance of the samples is below one.
pub open spec fn variance_below_one(s: Seq<u32>) -> bool {
    spread(s) < s.len() * s.len()
}

/// The smallest sample; zero where there is none.
pub open spec fn smallest(s: Seq<u32>) -> int
    decreases s.len(),
{
    if s.len() == 0 {
        0
    } else if s.len() == 1 {
        s.last() as int
    } else if s.last() < smallest(s.drop_last()) {
        s.last() as int
    } else {
        smallest(s.drop_last())
    }
}

/// The largest sample; zero where there is none.
pub open spec fn largest(s: Seq<u32>) -> int
    decreases s.len(),
{
    if s.len() == 0 {
        0
    } else if s.last() > largest(s.drop_last()) {
        s.last() as int
    } else {
        largest(s.drop_last())
    }
}

/// The smallest and the largest sample are samples, and every sample lies
/// between them.
pub proof fn lemma_extremes(s: Seq<u32>)
    requires
        s.len() > 0,
    ensures
        exists|i: int| 0 <= i < s.len() && s[i] == smallest(s),
        exists|i: int| 0 <= i < s.len() && s[i] == largest(s),
        forall|i: int| 0 <= i < s.len() ==> smallest(s) <= #[trigger] s[i] <= largest(s),
        0 <= smallest(s) <= largest(s) <= u32::MAX,
    decreases s.len(),
{
    let last = s.len() - 1;
    if s.len() == 1 {
        assert(s[0] == smallest(s));
        assert(largest(s.drop_last()) == 0);
        assert(s[0] == largest(s));
    } else {
        let rest = s.drop_last();
        lemma_extremes(rest);
        let i_min = choose|i: int| 0 <= i < rest.len() && rest[i] == smallest(rest);
        let i_max = choose|i: int| 0 <= i < rest.len() && rest[i] == largest(rest);
        if s.last() < smallest(rest) {
            assert(s[last] == smallest(s));
        } else {
            assert(s[i_min] == smallest(s));
        }
        if s.last() > largest(rest) {
            assert(s[last] == largest(s));
        } else {
            assert(s[i_max] == largest(s));
        }
        assert forall|i: int| 0 <= i < s.len() implies smallest(s) <= #[trigger] s[i]
            <= largest(s) by {
            if i < last {
                assert(rest[i] == s[i]);
            }
        }
        assert(smallest(s) <= s[0] <= largest(s));
    }
}

/// One more sample adds itself to each of the sums.
pub proof fn lemma_sums_step(s: Seq<u32>, i: int, q: int, limit: u32)
    requires
        0 <= i < s.len(),
    ensures
        total(s.take(i + 1)) == total(s.take(i)) + s[i],
        total_squares(s.take(i + 1)) == total_squares(s.take(i)) + s[i] * s[i],
        shifted_squares(s.take(i + 1), q) == shifted_squares(s.take(i), q) + (s[i] - q) * (s[i]
            - q),
        count_below(s.take(i + 1), limit) == count_below(s.take(i), limit) + if s[i] < limit {
            1int
        } else {
            0int
        },
{
    assert(s.take(i + 1).drop_last() =~= s.take(i));
}

/// The sums are not negative and grow at most by the largest sample, or its
/// square, with each sample; no more samples are below a limit than there are
/// samples.
pub proof fn lemma_sums_bounds(s: Seq<u32>, q: int, limit: u32)
    requires
        0 <= q <= u32::MAX,
    ensures
        0 <= total(s) <= s.len() * 0xFFFF_FFFF,
        0 <= total_squares(s) <= s.len() * 0xFFFF_FFFE_0000_0001,
        0 <= shifted_squares(s, q) <= s.len() * 0xFFFF_FFFE_0000_0001,
        0 <= count_below(s, limit) <= s.len(),
    decreases s.len(),
{
    if s.len() > 0 {
        lemma_sums_bounds(s.drop_last(), q, limit);
        let t = s.last() as int;
        assert(0 <= t * t <= 0xFFFF_FFFE_0000_0001) by (nonlinear_arith)
            requires
                0 <= t <= 0xFFFF_FFFF,
        ;
        assert(0 <= (t - q) * (t - q) <= 0xFFFF_FFFE_0000_0001) by (nonlinear_arith)
            requires
                0 <= t <= 0xFFFF_FFFF,
                0 <= q <= 0xFFFF_FFFF,
        ;
    }
}

/// The squares of the distances from `q` relate to the plain sums as the
/// binomial formula says, and sum to at least the sum of the distances.
pub proof fn lemma_shifted_squares(s: Seq<u32>, q: int)
    ensures
        shifted_squares(s, q) == total_squares(s) - 2 * q * total(s) + s.len() * q * q,
        shifted_squares(s, q) >= total(s) - s.len() * q,
    decreases s.len(),
{
    if s.len() > 0 {
        let rest = s.drop_last();
        lemma_shifted_squares(rest, q);
        let t = s.last() as int;
        let n = rest.len() as int;
        let s1 = total(rest);
        assert((t - q) * (t - q) == t * t - 2 * q * t + q * q) by (nonlinear_arith);
        assert((t - q) * (t - q) >= t - q) by (nonlinear_arith);
        assert(2 * q * (s1 + t) == 2 * q * s1 + 2 * q * t) by (nonlinear_arith);
        assert((n + 1) * q * q == n * q * q + q * q) by (nonlinear_arith);
        assert((n + 1) * q == n * q + q) by (nonlinear_arith);
    }
}

/// Measured from the whole part `q` of the mean, with `r` the remainder of the
/// sum, the spread of `n` samples is `n` times the squared distances less
/// `r^2`; so the spread, and with it the variance, is never negative.
pub proof fn lemma_spread_from_mean(s: Seq<u32>)
    requires
        s.len() > 0,
    ensures
        ({
            let n = s.len() as int;
            let q = total(s) / n;
            let r = total(s) % n;
            &&& 0 <= q <= u32::MAX
            &&& 0 <= r < n
            &&& spread(s) == n * shifted_squares(s, q) - r * r
            &&& shifted_squares(s, q) >= r
            &&& spread(s) >= 0
        }),
{
    let n = s.len() as int;
    let s1 = total(s);
    let s2 = total_squares(s);
    let q = s1 / n;
    let r = s1 % n;
    let d = shifted_squares(s, q);
    lemma_sums_bounds(s, 0, 0);
    vstd::arithmetic::div_mod::lemma_fundamental_div_mod(s1, n);
    vstd::arithmetic::div_mod::lemma_mod_pos_bound(s1, n);
    assert(0 <= q <= 0xFFFF_FFFF) by (nonlinear_arith)
        requires
            s1 == n * q + r,
            0 <= r < n,
            0 <= s1 <= n * 0xFFFF_FFFF,
    ;
    lemma_shifted_squares(s, q);
    assert(n * q == s1 - r);
    assert(n * q * q == (s1 - r) * q) by (nonlinear_arith)
        requires
            n * q == s1 - r,
    ;
    assert(d == s2 - 2 * q * s1 + (s1 - r) * q);
    assert(n * d - r * r == n * s2 - s1 * s1) by (nonlinear_arith)
        requires
            d == s2 - 2 * q * s1 + (s1 - r) * q,
            n * q == s1 - r,
    ;
    assert(d >= r);
    assert(n * d >= r * r) by (nonlinear_arith)
        requires
            d >= r,
            0 <= r < n,
    ;
}

/// Adds the samples up.
pub fn sum_of(samples: &Vec<u32>) -> (sum: u128)
    ensures
        sum == total(samples@),
        sum <= samples@.len() * 0xFFFF_FFFF,
{
    let mut sum: u128 = 0;
    let mut i: usize = 0;
    while i < samples.len()
        invariant
            i <= samples@.len(),
            sum == total(samples@.take(i as int)),
        decreases samples@.len() - i,
    {
        proof {
            lemma_sums_step(samples@, i as int, 0, 0);
            lemma_sums_bounds(samples@.take(i as int), 0, 0);
        }
        sum = sum + samples[i] as u128;
        i = i + 1;
    }
    proof {
        assert(samples@.take(i as int) =~= samples@);
        lemma_sums_bounds(samples@, 0, 0);
    }
    sum
}

/// Counts the samples below `limit`.
pub fn count_below_of(samples: &Vec<u32>, limit: u32) -> (count: usize)
    ensures
        count == count_below(samples@, limit),
{
    let mut count: usize = 0;
    let mut i: usize = 0;
    while i < samples.len()
        invariant
            i <= samples@.len(),
            count == count_below(samples@.take(i as int), limit),
            count <= i,
        decreases samples@.len() - i,
    {
        proof {
            lemma_sums_step(samples@, i as int, 0, limit);
        }
        if samples[i] < limit {
            count = count + 1;
        }
        i = i + 1;
    }
    proof {
        assert(samples@.take(i as int) =~= samples@);
    }
    count
}

/// Adds up the squares of the distances of the samples from `q`.
pub fn shifted_squares_of(samples: &Vec<u32>, q: u32) -> (sum: u128)
    ensures
        sum == shifted_squares(samples@, q as int),
        sum <= samples@.len() * 0xFFFF_FFFE_0000_0001,
{
    let mut sum: u128 = 0;
    let mut i: usize = 0;
    while i < samples.len()
        invariant
            i <= samples@.len(),
            sum == shifted_squares(samples@.take(i as int), q as int),
        decreases samples@.len() - i,
    {
        let t = samples[i];
        let distance: u64 = if t >= q {
            (t - q) as u64
        } else {
            (q - t) as u64
        };
        proof {
            lemma_sums_step(samples@, i as int, q as int, 0);
            lemma_sums_bounds(samples@.take(i as int), q as int, 0);
            assert(distance * distance == (t - q) * (t - q)) by (nonlinear_arith)
                requires
                    distance == t - q || distance == q - t,
            ;
            assert(0 <= distance * distance <= 0xFFFF_FFFE_0000_0001) by (nonlinear_arith)
                requires
                    0 <= distance <= 0xFFFF_FFFF,
            ;
            assert(i * 0xFFFF_FFFE_0000_0001 <= 0xFFFF_FFFF_FFFF_FFFF * 0xFFFF_FFFE_0000_0001)
                by (nonlinear_arith)
                requires
                    0 <= i <= 0xFFFF_FFFF_FFFF_FFFF,
            ;
        }
        let square: u64 = distance * distance;
        sum = sum + square as u128;
        i = i + 1;
    }
    proof {
        assert(samples@.take(i as int) =~= samples@);
        lemma_sums_bounds(samples@, q as int, 0);
    }
    sum
}

/// Decides whether the population variance of the samples is below one. The
/// spread is measured from the whole part of the mean, which keeps every
/// intermediate value within 128 bits for any number of samples.
pub fn has_variance_below_one(samples: &Vec<u32>) -> (below: bool)
    ensures
        below == variance_below_one(samples@),
{
    let n = samples.len() as u128;
    if n == 0 {
        return false;
    }
    let sum = sum_of(samples);
    let q = sum / n;
    let r = sum % n;
    proof {
        lemma_spread_from_mean(samples@);
    }
    let d = shifted_squares_of(samples, q as u32);
    proof {
        assert(r * r < n * n) by (nonlinear_arith)
            requires
                0 <= r < n,
        ;
    }
    if d < n {
        proof {
            assert(n * d - r * r < n * n) by (nonlinear_arith)
                requires
                    0 <= d < n,
                    0 <= r,
            ;
        }
        true
    } else if d == n {
        proof {
            assert((r * r > 0) == (r > 0)) by (nonlinear_arith)
                requires
                    0 <= r,
            ;
        }
        r > 0
    } else if d - n >= n {
        proof {
            assert(n * d - r * r >= n * n) by (nonlinear_arith)
                requires
                    d >= 2 * n,
                    r * r < n * n,
                    n > 0,
            ;
        }
        false
    } else {
        proof {
            assert(n * (d - n) == n * d - n * n) by (nonlinear_arith);
            assert(0 <= n * (d - n) <= 0xFFFF_FFFF_FFFF_FFFF * 0xFFFF_FFFF_FFFF_FFFF)
                by (nonlinear_arith)
                requires
                    0 < n <= 0xFFFF_FFFF_FFFF_FFFF,
                    0 <= d - n < n,
            ;
            assert(0 <= r * r <= 0xFFFF_FFFF_FFFF_FFFF * 0xFFFF_FFFF_FFFF_FFFF)
                by (nonlinear_arith)
                requires
                    0 <= r <= 0xFFFF_FFFF_FFFF_FFFF,
            ;
        }
        n * (d - n) < r * r
    }
}

/// The largest number of samples whose spread fits in 128 bits whatever the
/// samples are.
pub const MAX_SAMPLES: usize = 0xFFFF_FFFF;

/// Computes `n^2` times the population variance of the `n` samples.
pub fn spread_of(samples: &Vec<u32>) -> (v: u128)
    requires
        samples@.len() <= MAX_SAMPLES,
    ensures
        v == spread(samples@),
        v + samples@.len() * samples@.len() <= u128::MAX,
{
    let n = samples.len() as u128;
    if n == 0 {
        return 0;
    }
    let sum = sum_of(samples);
    let q = sum / n;
    let r = sum % n;
    proof {
        lemma_spread_from_mean(samples@);
    }
    let d = shifted_squares_of(samples, q as u32);
    proof {
        assert(n * d <= 0xFFFF_FFFF * (0xFFFF_FFFF * 0xFFFF_FFFE_0000_0001)) by (nonlinear_arith)
            requires
                0 < n <= 0xFFFF_FFFF,
                0 <= d <= n * 0xFFFF_FFFE_0000_0001,
        ;
        assert(n * n <= 0xFFFF_FFFF * 0xFFFF_FFFF) by (nonlinear_arith)
            requires
                0 < n <= 0xFFFF_FFFF,
        ;
        assert(0 <= r * r <= n * n) by (nonlinear_arith)
            requires
                0 <= r < n,
        ;
    }
    n * d - r * r
}

/// Finds the smallest sample.
pub fn smallest_of(samples: &Vec<u32>) -> (m: u32)
    requires
        samples@.len() > 0,
    ensures
        m == smallest(samples@),
{
    let mut m = samples[0];
    let mut i: usize = 1;
    assert(samples@.take(1).drop_last() =~= Seq::<u32>::empty());
    while i < samples.len()
        invariant
            1 <= i <= samples@.len(),
            m == smallest(samples@.take(i as int)),
        decreases samples@.len() - i,
    {
        assert(samples@.take(i + 1).drop_last() =~= samples@.take(i as int));
        if samples[i] < m {
            m = samples[i];
        }
        i = i + 1;
    }
    assert(samples@.take(i as int) =~= samples@);
    m
}

/// Finds the largest sample.
pub fn largest_of(samples: &Vec<u32>) -> (m: u32)
    requires
        samples@.len() > 0,
    ensures
        m == largest(samples@),
{
    let mut m = samples[0];
    let mut i: usize = 1;
    proof {
        let first = samples@.take(1);
        assert(first.drop_last() =~= Seq::<u32>::empty());
        assert(largest(first.drop_last()) == 0);
        assert(first.last() == samples@[0]);
    }
    while i < samples.len()
        invariant
            1 <= i <= samples@.len(),
            m == largest(samples@.take(i as int)),
        decreases samples@.len() - i,
    {
        assert(samples@.take(i + 1).drop_last() =~= samples@.take(i as int));
        if samples[i] > m {
            m = samples[i];
        }
        i = i + 1;
    }
    assert(samples@.take(i as int) =~= samples@);
    m
}

} // verus!
