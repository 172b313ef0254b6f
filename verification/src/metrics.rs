//! Integer arithmetic behind the percentage metrics: division rounded to the
//! nearest integer (ties rounded up, which on the non-negative readings used
//! here agrees with rounding half away from zero), and the aggregate CPU and
//! memory usage computations.

use vstd::arithmetic::div_mod::{lemma_fundamental_div_mod, lemma_fundamental_div_mod_converse};
use vstd::prelude::*;

verus! {

/// `n / d` rounded to the nearest integer, ties rounded up.
pub open spec fn div_round(n: nat, d: nat) -> nat
    recommends
        d > 0,
{
    (2 * n + d) / (2 * d)
}

/// Sum of a sequence of samples.
pub open spec fn seq_sum(s: Seq<u64>) -> nat
    decreases s.len(),
{
    if s.len() == 0 {
        0
    } else {
        seq_sum(s.drop_last()) + s.last() as nat
    }
}

/// Rounding to the nearest integer is the plain quotient, plus one when the
/// remainder is at least half the divisor.
pub proof fn lemma_div_round_decompose(n: nat, d: nat)
    requires
        d > 0,
    ensures
        div_round(n, d) == n / d + (if 2 * (n % d) >= d {
            1nat
        } else {
            0nat
        }),
{
    let q = (n / d) as int;
    let r = (n % d) as int;
    lemma_fundamental_div_mod(n as int, d as int);
    if 2 * r >= d {
        assert(2 * n + d == (q + 1) * (2 * d) + (2 * r - d)) by (nonlinear_arith)
            requires
                n == d * q + r,
        ;
        lemma_fundamental_div_mod_converse(
            2 * (n as int) + d,
            2 * (d as int),
            q + 1,
            2 * r - d,
        );
    } else {
        assert(2 * n + d == q * (2 * d) + (2 * r + d)) by (nonlinear_arith)
            requires
                n == d * q + r,
        ;
        lemma_fundamental_div_mod_converse(2 * (n as int) + d, 2 * (d as int), q, 2 * r + d);
    }
}

/// When the dividend is at most `d` times a bound, the rounded quotient is
/// at most that bound.
pub proof fn lemma_div_round_bound(n: nat, d: nat, bound: nat)
    requires
        d > 0,
        n <= d * bound,
    ensures
        div_round(n, d) <= bound,
{
    lemma_div_round_decompose(n, d);
    let q = (n / d) as int;
    let r = (n % d) as int;
    lemma_fundamental_div_mod(n as int, d as int);
    assert(q <= bound) by (nonlinear_arith)
        requires
            n == d * q + r,
            0 <= r,
            n <= d * bound,
            d > 0,
    ;
    if 2 * r >= d {
        // a tie bump can only happen strictly below the bound
        assert(q < bound) by (nonlinear_arith)
            requires
                n == d * q + r,
                2 * r >= d,
                d > 0,
                n <= d * bound,
        ;
    }
}

/// `n / d` rounded to the nearest integer, ties rounded up.
pub fn div_round_u64(n: u64, d: u64) -> (r: u64)
    requires
        d > 0,
    ensures
        r == div_round(n as nat, d as nat),
{
    proof {
        lemma_div_round_decompose(n as nat, d as nat);
        assert(n as nat <= d as nat * n as nat) by (nonlinear_arith)
            requires
                d > 0,
        ;
        lemma_div_round_bound(n as nat, d as nat, n as nat);
    }
    let q = n / d;
    let rem = n % d;
    if rem >= d - rem {
        q + 1
    } else {
        q
    }
}

/// Summing distributes over concatenation.
pub proof fn lemma_seq_sum_concat(a: Seq<u64>, b: Seq<u64>)
    ensures
        seq_sum(a + b) == seq_sum(a) + seq_sum(b),
    decreases b.len(),
{
    if b.len() == 0 {
        assert(a + b =~= a);
    } else {
        lemma_seq_sum_concat(a, b.drop_last());
        assert((a + b).drop_last() =~= a + b.drop_last());
    }
}

/// Reversing a sequence does not change its sum.
pub proof fn lemma_seq_sum_reverse(s: Seq<u64>)
    ensures
        seq_sum(s.reverse()) == seq_sum(s),
    decreases s.len(),
{
    if s.len() == 0 {
        assert(s.reverse() =~= s);
    } else {
        lemma_seq_sum_reverse(s.drop_last());
        assert(s.reverse() =~= seq![s.last()] + s.drop_last().reverse());
        lemma_seq_sum_concat(seq![s.last()], s.drop_last().reverse());
        assert(seq_sum(seq![s.last()]) == s.last() as nat) by {
            assert(seq![s.last()].len() == 1);
            assert(seq![s.last()].last() == s.last());
            assert(seq![s.last()].drop_last() =~= Seq::<u64>::empty());
            assert(seq_sum(Seq::<u64>::empty()) == 0);
        }
    }
}

/// The sum of a sequence of 64-bit samples is bounded by its length times
/// the largest 64-bit value.
pub proof fn lemma_seq_sum_bound(s: Seq<u64>)
    ensures
        seq_sum(s) <= s.len() * 0xffff_ffff_ffff_ffff,
    decreases s.len(),
{
    if s.len() == 0 {
    } else {
        lemma_seq_sum_bound(s.drop_last());
        assert((s.len() - 1) * 0xffff_ffff_ffff_ffff + 0xffff_ffff_ffff_ffff == s.len()
            * 0xffff_ffff_ffff_ffff) by (nonlinear_arith);
    }
}

/// Sum of the samples of a vector, exact in 128-bit arithmetic.
pub fn sum_samples(v: &Vec<u64>) -> (s: u128)
    ensures
        s == seq_sum(v@),
{
    let mut total: u128 = 0;
    let mut i: usize = 0;
    let n = v.len();
    while i < n
        invariant
            i <= n,
            n == v@.len(),
            total == seq_sum(v@.subrange(0, i as int)),
            total <= i * 0xffff_ffff_ffff_ffff,
        decreases n - i,
    {
        proof {
            assert(v@.subrange(0, i + 1 as int).drop_last() =~= v@.subrange(0, i as int));
            assert(i * 0xffff_ffff_ffff_ffff + 0xffff_ffff_ffff_ffff == (i + 1)
                * 0xffff_ffff_ffff_ffff) by (nonlinear_arith);
            assert((i + 1) * 0xffff_ffff_ffff_ffff <= 0xffff_ffff_ffff_ffff_ffff_ffff_ffff_ffff)
                by (nonlinear_arith)
                requires
                    i + 1 <= 0xffff_ffff_ffff_ffff,
            ;
        }
        total = total + v[i] as u128;
        i = i + 1;
    }
    proof {
        assert(v@.subrange(0, v@.len() as int) =~= v@);
    }
    total
}

/// `n / d` rounded to the nearest integer, ties rounded up, on 128-bit
/// intermediates whose rounded quotient fits in 64 bits.
pub fn div_round_wide(n: u128, d: u128) -> (r: u64)
    requires
        d > 0,
        div_round(n as nat, d as nat) <= u64::MAX,
    ensures
        r == div_round(n as nat, d as nat),
{
    proof {
        lemma_div_round_decompose(n as nat, d as nat);
    }
    let q = n / d;
    let rem = n % d;
    if rem >= d - rem {
        (q + 1) as u64
    } else {
        q as u64
    }
}

/// Mean of a set of readings in tenths of a percent, rounded to the nearest
/// whole percent: the aggregate CPU usage of one tick, computed from the
/// per-core usage percentages.
pub open spec fn spec_cpu_usage(per_core_tenths: Seq<u64>) -> nat {
    div_round(seq_sum(per_core_tenths), 10 * per_core_tenths.len())
}

/// Aggregate CPU usage percentage: the mean of the per-core usage readings
/// (given in tenths of a percent), rounded to the nearest whole percent.
pub fn get_cpu_usage(per_core_tenths: &Vec<u64>) -> (r: u64)
    requires
        per_core_tenths@.len() > 0,
    ensures
        r == spec_cpu_usage(per_core_tenths@),
{
    let sum = sum_samples(per_core_tenths);
    let d: u128 = 10 * (per_core_tenths.len() as u128);
    proof {
        lemma_seq_sum_bound(per_core_tenths@);
        assert(seq_sum(per_core_tenths@) <= (10 * per_core_tenths@.len())
            * 0xffff_ffff_ffff_ffff) by (nonlinear_arith)
            requires
                seq_sum(per_core_tenths@) <= per_core_tenths@.len() * 0xffff_ffff_ffff_ffff,
        ;
        lemma_div_round_bound(
            seq_sum(per_core_tenths@),
            10 * per_core_tenths@.len(),
            0xffff_ffff_ffff_ffff as nat,
        );
    }
    div_round_wide(sum, d)
}

/// Memory usage of one tick: used over total, as a percentage rounded to the
/// nearest whole number.
pub open spec fn spec_memory_usage(used: u64, total: u64) -> nat {
    div_round(100 * used as nat, total as nat)
}

/// Memory usage percentage: `used / total * 100` rounded to the nearest
/// whole number.
pub fn get_memory_usage(used: u64, total: u64) -> (r: u64)
    requires
        total > 0,
        used <= total,
    ensures
        r == spec_memory_usage(used, total),
        r <= 100,
{
    proof {
        assert(100 * used as nat <= total as nat * 100) by (nonlinear_arith)
            requires
                used <= total,
        ;
        lemma_div_round_bound(100 * used as nat, total as nat, 100);
    }
    div_round_wide(100 * (used as u128), total as u128)
}

} // verus!
