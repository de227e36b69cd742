//! The delay-time parameter curve.
//!
//! The host normalises the delay-time parameter to the unit interval; the
//! engine keeps it in thousandths, 0 through 1000. The curve is fixed by
//! design: a normalised value `v` means `500 * v + 100` milliseconds, so the
//! parameter sweeps 100 ms to 600 ms, and the delay in samples is that time
//! multiplied by the sample rate, rounded to the nearest sample. In
//! thousandths this collapses to `round(rate * (value + 200) / 2000)`.

use vstd::prelude::*;

verus! {

use vstd::arithmetic::div_mod::lemma_div_by_multiple;
use vstd::arithmetic::div_mod::lemma_div_is_ordered;
use vstd::arithmetic::div_mod::lemma_fundamental_div_mod;
use vstd::arithmetic::div_mod::lemma_mod_bound;

/// The parameter is carried in thousandths of its normalised range.
pub const PARAM_SCALE: u32 = 1000;

/// Below 5 frames per second even the shortest delay, 100 ms, is less than
/// one sample and no ring could realise it.
pub const MIN_SAMPLE_RATE: u32 = 5;

/// Generous upper bound on real-world sample rates; it keeps every
/// intermediate product of the mapping and every buffer size small.
pub const MAX_SAMPLE_RATE: u32 = 1_000_000;

/// The delay in samples for a parameter value in thousandths and a sample
/// rate in frames per second: `round(rate * (value + 200) / 2000)`, which is
/// the 100 ms to 600 ms curve scaled to samples, rounding half up.
pub open spec fn samples_for_spec(value: int, rate: int) -> int {
    (rate * (value + 200) + 1000) / 2000
}

/// Executable form of the curve. At least one sample of delay comes out for
/// any admissible rate, and the result is small enough for any buffer index.
pub fn samples_for(value: u32, rate: u32) -> (r: usize)
    requires
        value <= PARAM_SCALE,
        MIN_SAMPLE_RATE <= rate <= MAX_SAMPLE_RATE,
    ensures
        r as int == samples_for_spec(value as int, rate as int),
        1 <= r <= 600_000,
{
    proof {
        assert((rate as int) * ((value as int) + 200) <= 1_000_000 * 1200) by (nonlinear_arith)
            requires
                rate as int <= 1_000_000,
                value as int <= 1000,
                0 <= rate as int,
                0 <= value as int,
        ;
        assert(1000 <= (rate as int) * ((value as int) + 200)) by (nonlinear_arith)
            requires
                5 <= rate as int,
                0 <= value as int,
        ;
    }
    let num: u64 = (rate as u64) * ((value as u64) + 200) + 1000;
    let r: u64 = num / 2000;
    r as usize
}

/// The curve is non-decreasing in the parameter value and in the sample
/// rate: a longer requested time, or a finer sample grid, never yields a
/// shorter delay in samples.
pub proof fn lemma_samples_for_monotonic(v1: int, r1: int, v2: int, r2: int)
    requires
        0 <= v1 <= v2,
        0 <= r1 <= r2,
    ensures
        samples_for_spec(v1, r1) <= samples_for_spec(v2, r2),
{
    assert(r1 * (v1 + 200) <= r2 * (v2 + 200)) by (nonlinear_arith)
        requires
            0 <= v1 <= v2,
            0 <= r1 <= r2,
    ;
    lemma_div_is_ordered(r1 * (v1 + 200) + 1000, r2 * (v2 + 200) + 1000, 2000);
}

/// Even the longest delay the curve can ask for, 600 ms, fits inside an
/// oversized ring of two seconds' worth of samples.
pub proof fn lemma_samples_for_fits(value: int, rate: int)
    requires
        0 <= value <= 1000,
        1 <= rate,
    ensures
        samples_for_spec(value, rate) <= 2 * rate,
{
    assert(rate * (value + 200) + 1000 <= 2 * rate * 2000) by (nonlinear_arith)
        requires
            0 <= value <= 1000,
            1 <= rate,
    ;
    lemma_div_is_ordered(rate * (value + 200) + 1000, 2 * rate * 2000, 2000);
    lemma_div_by_multiple(2 * rate, 2000);
}

/// The ends of the curve land where the design says: the lowest parameter
/// value delays by 100 ms of samples (a tenth of the rate) and the highest
/// by 600 ms, each up to the half-sample the rounding may move.
pub proof fn lemma_samples_for_endpoints(rate: int)
    requires
        1 <= rate,
    ensures
        rate - 5 <= 10 * samples_for_spec(0, rate) <= rate + 5,
        6 * rate - 5 <= 10 * samples_for_spec(1000, rate) <= 6 * rate + 5,
{
    lemma_fundamental_div_mod(rate * 200 + 1000, 2000);
    lemma_mod_bound(rate * 200 + 1000, 2000);
    lemma_fundamental_div_mod(rate * 1200 + 1000, 2000);
    lemma_mod_bound(rate * 1200 + 1000, 2000);
}

} // verus!
