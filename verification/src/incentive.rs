//! Randomized per-round incentive.
//!
//! The incentive of magnitude `m` is drawn as two independent uniform
//! integers in the closed interval `[-|m|, |m|]`; the draw whose magnitude is
//! strictly greater wins, and ties (or a first draw of equal or smaller
//! magnitude) resolve to the second draw.  The tie-break is deliberately
//! asymmetric.

use vstd::prelude::*;

use crate::db_types::abs_i64;

verus! {

/// The deterministic part of the incentive rule: which of two draws is kept.
/// The first draw wins only when its magnitude is strictly greater.
pub open spec fn spec_pick_incentive(r1: i64, r2: i64) -> i64 {
    if abs_i64(r1) > abs_i64(r2) {
        r1
    } else {
        r2
    }
}

/// What a computed demand may be: the baseline, adjusted by an incentive of
/// magnitude at most `|m|` once the round has reached `incentive_start_year`.
pub open spec fn demand_ok(
    baseline: i64,
    m: i64,
    year: i64,
    incentive_start_year: i64,
    d: i64,
) -> bool {
    if year >= incentive_start_year {
        if m == 0 {
            d == baseline
        } else {
            baseline - abs_i64(m) <= d <= baseline + abs_i64(m)
        }
    } else {
        d == baseline
    }
}

/// Relies on `rand::random_range`: a uniformly distributed integer in the
/// closed interval from `min` to `max`; the call panics only when the range
/// is empty.
#[verifier::external_body]
fn random_number(min: i64, max: i64) -> (r: i64)
    requires
        min <= max,
    ensures
        min <= r <= max,
{
    rand::random_range(min..=max)
}

/// Resolves two incentive draws to the kept one.
pub fn incentive_from_draws(r1: i64, r2: i64) -> (r: i64)
    requires
        r1 > i64::MIN,
        r2 > i64::MIN,
    ensures
        r == spec_pick_incentive(r1, r2),
{
    let a1 = if r1 >= 0 { r1 } else { -r1 };
    let a2 = if r2 >= 0 { r2 } else { -r2 };
    if a1 > a2 {
        r1
    } else {
        r2
    }
}

/// Generates a random incentive: zero for magnitude zero, otherwise two
/// draws from `[-|m|, |m|]` resolved by `spec_pick_incentive`.
pub fn gen_random_incentive(m: i64) -> (r: i64)
    requires
        m > i64::MIN,
    ensures
        m == 0 ==> r == 0,
        -abs_i64(m) <= r <= abs_i64(m),
{
    if m == 0 {
        return 0;
    }
    let absmul = if m >= 0 { m } else { -m };
    let r1 = random_number(-absmul, absmul);
    let r2 = random_number(-absmul, absmul);
    incentive_from_draws(r1, r2)
}

/// The per-member, per-round target demand: the baseline, plus a random
/// incentive of magnitude `m` once `year` has reached `incentive_start_year`.
pub fn compute_demand(baseline: i64, m: i64, year: i64, incentive_start_year: i64) -> (r: i64)
    requires
        m > i64::MIN,
        baseline + abs_i64(m) <= i64::MAX,
        baseline - abs_i64(m) >= i64::MIN,
    ensures
        demand_ok(baseline, m, year, incentive_start_year, r),
{
    let incentive = if year >= incentive_start_year {
        gen_random_incentive(m)
    } else {
        0
    };
    baseline + incentive
}

} // verus!
