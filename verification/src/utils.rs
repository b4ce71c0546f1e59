//! Bucketing of Unix timestamps for the averaging routes.

use crate::client::Timestep;
use vstd::arithmetic::div_mod::{lemma_fundamental_div_mod, lemma_mod_multiples_basic};
use vstd::arithmetic::mul::lemma_mul_is_commutative;
use vstd::prelude::*;

verus! {

/// Whether `t` is an exact multiple of `step`.
pub open spec fn is_bucket_boundary(t: int, step: int) -> bool {
    t % step == 0
}

/// The multiple of `step` that is nearest to `t` on the side of zero.
///
/// For `t >= 0` this is the largest multiple not above `t`; for `t < 0` it is
/// the smallest multiple not below `t`, because the quotient is truncated
/// rather than floored.
pub open spec fn round_toward_zero(t: int, step: int) -> int {
    if t >= 0 {
        t - t % step
    } else {
        t + (-t) % step
    }
}

/// `round_toward_zero` is what truncating division followed by
/// multiplication computes.
proof fn lemma_truncating_quotient(t: int, step: int)
    requires
        step > 0,
    ensures
        t >= 0 ==> (t / step) * step == round_toward_zero(t, step),
        t < 0 ==> (-((-t) / step)) * step == round_toward_zero(t, step),
        0 <= t % step < step,
        0 <= (-t) % step < step,
{
    lemma_fundamental_div_mod(t, step);
    lemma_fundamental_div_mod(-t, step);
    lemma_mul_is_commutative(step, t / step);
    lemma_mul_is_commutative(step, (-t) / step);
    assert((-((-t) / step)) * step == -(((-t) / step) * step)) by (nonlinear_arith);
}

/// The result of rounding is a bucket boundary.
pub proof fn lemma_rounded_is_boundary(t: int, step: int)
    requires
        step > 0,
    ensures
        is_bucket_boundary(round_toward_zero(t, step), step),
{
    lemma_truncating_quotient(t, step);
    if t >= 0 {
        lemma_mod_multiples_basic(t / step, step);
    } else {
        lemma_mod_multiples_basic(-((-t) / step), step);
    }
}

/// A bucket boundary is left where it is.
pub proof fn lemma_boundary_is_fixed(t: int, step: int)
    requires
        step > 0,
        is_bucket_boundary(t, step),
    ensures
        round_toward_zero(t, step) == t,
{
    if t < 0 {
        // -t == step * (-(t / step)) + 0, so the remainder of -t is 0 as well.
        lemma_fundamental_div_mod(t, step);
        lemma_mul_is_commutative(step, t / step);
        assert(-t == (-(t / step)) * step) by (nonlinear_arith)
            requires
                t == (t / step) * step,
        ;
        lemma_mod_multiples_basic(-(t / step), step);
    }
}

/// Rounding an already rounded timestamp changes nothing, whatever the
/// time step and whatever the timestamp.
pub proof fn lemma_round_is_idempotent(timestep: Timestep, timestamp: i64)
    ensures
        round_toward_zero(
            round_toward_zero(timestamp as int, timestep.seconds()),
            timestep.seconds(),
        ) == round_toward_zero(timestamp as int, timestep.seconds()),
{
    let step = timestep.seconds();
    lemma_rounded_is_boundary(timestamp as int, step);
    lemma_boundary_is_fixed(round_toward_zero(timestamp as int, step), step);
}

/// No bucket boundary lies strictly between a timestamp and its rounded
/// value: among the multiples of `step` on the zero side of `t`, the rounded
/// value is the one nearest to `t`.
pub proof fn lemma_round_is_nearest(t: int, step: int, boundary: int)
    requires
        step > 0,
        is_bucket_boundary(boundary, step),
    ensures
        t >= 0 && boundary <= t ==> boundary <= round_toward_zero(t, step),
        t < 0 && boundary >= t ==> boundary >= round_toward_zero(t, step),
{
    let rounded = round_toward_zero(t, step);
    lemma_rounded_is_boundary(t, step);
    lemma_truncating_quotient(t, step);
    lemma_fundamental_div_mod(boundary, step);
    lemma_fundamental_div_mod(rounded, step);
    let qb = boundary / step;
    let qr = rounded / step;
    // Two multiples of `step` less than `step` apart are equal.
    if t >= 0 && boundary <= t && boundary > rounded {
        assert(false) by (nonlinear_arith)
            requires
                step > 0,
                boundary == step * qb,
                rounded == step * qr,
                rounded < boundary,
                boundary < rounded + step,
        ;
    }
    if t < 0 && boundary >= t && boundary < rounded {
        assert(false) by (nonlinear_arith)
            requires
                step > 0,
                boundary == step * qb,
                rounded == step * qr,
                boundary < rounded,
                rounded < boundary + step,
        ;
    }
}

/// Rounds `timestamp` to the bucket boundary of `timestep` that precedes it.
///
/// The quotient of `timestamp` by the length of the time step is truncated
/// toward zero and multiplied back. A timestamp at or after the epoch is
/// therefore floored to its bucket; one before the epoch moves toward the
/// epoch, not away from it.
#[must_use]
pub fn round_to_previous_timestamp(timestep: Timestep, timestamp: i64) -> (rounded: i64)
    ensures
        rounded == round_toward_zero(timestamp as int, timestep.seconds()),
        is_bucket_boundary(rounded as int, timestep.seconds()),
        timestamp >= 0 ==> rounded <= timestamp < rounded + timestep.seconds(),
        timestamp < 0 ==> timestamp <= rounded < timestamp + timestep.seconds(),
{
    let timestep_secs: i64 = i64::from(timestep);
    proof {
        lemma_truncating_quotient(timestamp as int, timestep_secs as int);
        lemma_rounded_is_boundary(timestamp as int, timestep_secs as int);
    }
    (timestamp / timestep_secs) * timestep_secs
}

} // verus!
