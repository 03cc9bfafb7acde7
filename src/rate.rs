//! Throughput of a batch: candidates per second, and its scaled display form.
use vstd::prelude::*;
use vstd::arithmetic::div_mod::{
    lemma_div_denominator,
    lemma_div_is_ordered,
    lemma_div_is_ordered_by_denominator,
};

verus! {

pub const NANOS_PER_SECOND: u128 = 1_000_000_000;

/// Whole candidates per second for `count` candidates in `nanos` nanoseconds.
pub open spec fn rate_of(count: int, nanos: int) -> int {
    count * 1_000_000_000 / nanos
}

/// Magnitude in which a rate is shown, in steps of a thousand.
#[derive(Clone, Copy, Debug, PartialEq, Eq, Structural)]
pub enum RateUnit {
    PerSecond,
    Kilo,
    Mega,
    Giga,
}

/// The largest magnitude that does not exceed `hps`.
pub open spec fn unit_of(hps: int) -> RateUnit {
    if hps >= 1_000_000_000 {
        RateUnit::Giga
    } else if hps >= 1_000_000 {
        RateUnit::Mega
    } else if hps >= 1_000 {
        RateUnit::Kilo
    } else {
        RateUnit::PerSecond
    }
}

pub open spec fn unit_divisor(u: RateUnit) -> int {
    match u {
        RateUnit::PerSecond => 1,
        RateUnit::Kilo => 1_000,
        RateUnit::Mega => 1_000_000,
        RateUnit::Giga => 1_000_000_000,
    }
}

impl RateUnit {
    /// The unit's symbol.
    pub fn label(&self) -> (r: &'static str)
        ensures
            r@ == (match *self {
                RateUnit::PerSecond => "H/s",
                RateUnit::Kilo => "kH/s",
                RateUnit::Mega => "MH/s",
                RateUnit::Giga => "GH/s",
            })@,
    {
        match *self {
            RateUnit::PerSecond => "H/s",
            RateUnit::Kilo => "kH/s",
            RateUnit::Mega => "MH/s",
            RateUnit::Giga => "GH/s",
        }
    }
}

/// Candidates per second, rounded down, for `count` candidates checked in
/// `elapsed_nanos` nanoseconds.
pub fn hashes_per_second(count: u64, elapsed_nanos: u64) -> (r: u128)
    requires
        elapsed_nanos > 0,
    ensures
        r == rate_of(count as int, elapsed_nanos as int),
{
    assert(count as int * 1_000_000_000 <= u64::MAX as int * 1_000_000_000) by (nonlinear_arith);
    (count as u128) * NANOS_PER_SECOND / (elapsed_nanos as u128)
}

/// A rate in the magnitude that suits it: the scaled value in hundredths,
/// rounded down, and the magnitude.
pub fn scale_rate(hps: u128) -> (r: (u128, RateUnit))
    ensures
        r.1 == unit_of(hps as int),
        r.0 == hps as int * 100 / unit_divisor(r.1),
{
    if hps >= 1_000_000_000 {
        proof { lemma_div_denominator(hps as int * 100, 100, 10_000_000); }
        assert(hps as int * 100 / 100 == hps);
        (hps / 10_000_000, RateUnit::Giga)
    } else if hps >= 1_000_000 {
        proof { lemma_div_denominator(hps as int * 100, 100, 10_000); }
        assert(hps as int * 100 / 100 == hps);
        (hps / 10_000, RateUnit::Mega)
    } else if hps >= 1_000 {
        proof { lemma_div_denominator(hps as int * 100, 100, 10); }
        assert(hps as int * 100 / 100 == hps);
        (hps / 10, RateUnit::Kilo)
    } else {
        (hps * 100, RateUnit::PerSecond)
    }
}

/// Twice the time for the same number of candidates gives half the rate.
pub proof fn lemma_rate_halves(count: int, nanos: int)
    requires
        count >= 0,
        nanos > 0,
    ensures
        rate_of(count, 2 * nanos) == rate_of(count, nanos) / 2,
{
    assert(count * 1_000_000_000 >= 0) by (nonlinear_arith)
        requires count >= 0;
    lemma_div_denominator(count * 1_000_000_000, nanos, 2);
    assert(nanos * 2 == 2 * nanos);
}

/// More candidates in the same time never give a lower rate, and more time for
/// the same candidates never gives a higher one.
pub proof fn lemma_rate_monotonic(c1: int, c2: int, n1: int, n2: int)
    requires
        0 <= c1 <= c2,
        0 < n1 <= n2,
    ensures
        rate_of(c1, n1) <= rate_of(c2, n1),
        rate_of(c1, n1) >= rate_of(c1, n2),
{
    assert(0 <= c1 * 1_000_000_000 <= c2 * 1_000_000_000) by (nonlinear_arith)
        requires 0 <= c1 <= c2;
    lemma_div_is_ordered(c1 * 1_000_000_000, c2 * 1_000_000_000, n1);
    lemma_div_is_ordered_by_denominator(c1 * 1_000_000_000, n1, n2);
}

} // verus!
