//! Random sampling for the simulation: an integer approximation of a normal
//! distribution (a sum of six uniform draws, the Irwin-Hall approximation)
//! and a Bernoulli draw, both built on one uniform draw from `rand`.
//!
//! All values are integers.  The uniform draws use a fixed-point unit of
//! [`SAMPLE_SCALE`] sub-steps, and probabilities are given in millionths
//! ([`PROBABILITY_SCALE`] means certainty).

use vstd::prelude::*;

verus! {

/// Fixed-point unit: one uniform draw is an integer in `[0, SAMPLE_SCALE)`,
/// standing for a real in `[0, 1)`.
pub const SAMPLE_SCALE: u64 = 65536;

/// Probabilities are integers in `[0, PROBABILITY_SCALE]`, in millionths.
pub const PROBABILITY_SCALE: u64 = 1000000;

/// Largest accepted expectation or dispersion of a timing distribution;
/// keeps the fixed-point arithmetic of `next_int` inside `u64`.
pub const MAX_DISTRIBUTION_PARAM: u64 = 1000000;

/// Relies on `rand`: `RngExt::random_range` over `0..bound` returns a
/// uniformly distributed value of that range; it panics only on an empty
/// range, which `bound > 0` rules out.  Nothing more can be promised of a
/// random draw than its bound.
#[verifier::external_body]
pub(crate) fn random_below(bound: u64) -> (r: u64)
    requires
        bound > 0,
    ensures
        r < bound,
{
    rand::RngExt::random_range::<u64, _>(&mut rand::rng(), 0..bound)
}

/// Draws an integer from the normal-like distribution with the given
/// expectation and dispersion: six uniform draws in `[0, 1)` are summed,
/// `3` is subtracted, the spread is scaled by `dispersion` and shifted by
/// `expectation`, and a negative outcome is clamped to zero.
pub fn next_int(expectation: u64, dispersion: u64) -> (r: u64)
    requires
        expectation <= MAX_DISTRIBUTION_PARAM,
        dispersion <= MAX_DISTRIBUTION_PARAM,
    ensures
        r <= expectation + 3 * dispersion,
        dispersion == 0 ==> r == expectation,
        expectation >= 3 * dispersion ==> expectation - 3 * dispersion <= r,
{
    let mut sum: u64 = 0;
    let mut i: u64 = 0;
    while i < 6
        invariant
            i <= 6,
            sum <= i * (SAMPLE_SCALE - 1),
        decreases 6 - i,
    {
        let draw = random_below(SAMPLE_SCALE);
        proof {
            assert(sum + draw <= (i + 1) * (SAMPLE_SCALE - 1)) by (nonlinear_arith)
                requires
                    sum <= i * (SAMPLE_SCALE - 1),
                    draw <= SAMPLE_SCALE - 1,
                    0 <= i,
            ;
            assert(sum + draw <= 6 * SAMPLE_SCALE) by (nonlinear_arith)
                requires
                    sum <= i * (SAMPLE_SCALE - 1),
                    draw <= SAMPLE_SCALE - 1,
                    0 <= i < 6,
            ;
        }
        sum = sum + draw;
        i = i + 1;
    }
    proof {
        assert(sum <= 6 * SAMPLE_SCALE) by (nonlinear_arith)
            requires
                sum <= i * (SAMPLE_SCALE - 1),
                0 <= i <= 6,
        ;
        assert(expectation * SAMPLE_SCALE <= MAX_DISTRIBUTION_PARAM * SAMPLE_SCALE)
            by (nonlinear_arith)
            requires
                expectation <= MAX_DISTRIBUTION_PARAM,
        ;
    }
    let base = expectation * SAMPLE_SCALE;
    if sum >= 3 * SAMPLE_SCALE {
        proof {
            assert(dispersion * (sum - 3 * SAMPLE_SCALE) <= MAX_DISTRIBUTION_PARAM * (3
                * SAMPLE_SCALE)) by (nonlinear_arith)
                requires
                    dispersion <= MAX_DISTRIBUTION_PARAM,
                    0 <= sum - 3 * SAMPLE_SCALE <= 3 * SAMPLE_SCALE,
            ;
        }
        let num = base + dispersion * (sum - 3 * SAMPLE_SCALE);
        proof {
            assert(num <= (expectation + 3 * dispersion) * SAMPLE_SCALE) by (nonlinear_arith)
                requires
                    num == expectation * SAMPLE_SCALE + dispersion * (sum - 3 * SAMPLE_SCALE),
                    sum - 3 * SAMPLE_SCALE <= 3 * SAMPLE_SCALE,
                    dispersion >= 0,
            ;
            lemma_scaled_div_le(num as int, (expectation + 3 * dispersion) as int);
            lemma_scaled_div_ge(num as int, expectation as int);
        }
        num / SAMPLE_SCALE
    } else {
        proof {
            assert(dispersion * (3 * SAMPLE_SCALE - sum) <= MAX_DISTRIBUTION_PARAM * (3
                * SAMPLE_SCALE)) by (nonlinear_arith)
                requires
                    dispersion <= MAX_DISTRIBUTION_PARAM,
                    0 <= 3 * SAMPLE_SCALE - sum <= 3 * SAMPLE_SCALE,
            ;
        }
        let deficit = dispersion * (3 * SAMPLE_SCALE - sum);
        if deficit >= base {
            proof {
                if expectation > 3 * dispersion {
                    assert(deficit <= dispersion * (3 * SAMPLE_SCALE)) by (nonlinear_arith)
                        requires
                            deficit == dispersion * (3 * SAMPLE_SCALE - sum),
                            sum >= 0,
                            dispersion >= 0,
                    ;
                    assert(dispersion * (3 * SAMPLE_SCALE) < expectation * SAMPLE_SCALE)
                        by (nonlinear_arith)
                        requires
                            3 * dispersion < expectation,
                            SAMPLE_SCALE > 0,
                    ;
                }
            }
            0
        } else {
            let num = base - deficit;
            proof {
                lemma_scaled_div_le(num as int, expectation as int);
                if expectation >= 3 * dispersion {
                    assert(deficit <= dispersion * (3 * SAMPLE_SCALE)) by (nonlinear_arith)
                        requires
                            deficit == dispersion * (3 * SAMPLE_SCALE - sum),
                            sum >= 0,
                            dispersion >= 0,
                    ;
                    assert(num >= (expectation - 3 * dispersion) * SAMPLE_SCALE)
                        by (nonlinear_arith)
                        requires
                            num == expectation * SAMPLE_SCALE - dispersion * (3 * SAMPLE_SCALE
                                - sum),
                            deficit == dispersion * (3 * SAMPLE_SCALE - sum),
                            deficit <= dispersion * (3 * SAMPLE_SCALE),
                            expectation >= 3 * dispersion,
                    ;
                    lemma_scaled_div_ge(num as int, (expectation - 3 * dispersion) as int);
                }
                if dispersion == 0 {
                    assert(num == expectation * SAMPLE_SCALE);
                    lemma_scaled_div_ge(num as int, expectation as int);
                }
            }
            num / SAMPLE_SCALE
        }
    }
}

/// If `num` is at most `k` units of `SAMPLE_SCALE`, its truncated division
/// by `SAMPLE_SCALE` is at most `k`.
proof fn lemma_scaled_div_le(num: int, k: int)
    requires
        0 <= num <= k * SAMPLE_SCALE,
    ensures
        num / (SAMPLE_SCALE as int) <= k,
{
    assert(num / (SAMPLE_SCALE as int) <= k) by (nonlinear_arith)
        requires
            0 <= num <= k * SAMPLE_SCALE,
            SAMPLE_SCALE > 0,
    ;
}

/// If `num` is at least `k` units of `SAMPLE_SCALE`, its truncated division
/// by `SAMPLE_SCALE` is at least `k`.
proof fn lemma_scaled_div_ge(num: int, k: int)
    requires
        0 <= k,
        k * SAMPLE_SCALE <= num,
    ensures
        k <= num / (SAMPLE_SCALE as int),
{
    assert(k <= num / (SAMPLE_SCALE as int)) by (nonlinear_arith)
        requires
            0 <= k,
            k * SAMPLE_SCALE <= num,
            SAMPLE_SCALE > 0,
    ;
}

/// Bernoulli draw: true with the given probability, expressed in millionths.
/// A probability of zero never yields true; full probability always does.
pub fn next_bool(probability: u64) -> (r: bool)
    requires
        probability <= PROBABILITY_SCALE,
    ensures
        probability == 0 ==> !r,
        probability == PROBABILITY_SCALE ==> r,
{
    let draw = random_below(PROBABILITY_SCALE);
    draw < probability
}

} // verus!
