//! Rounding of a non-negative quantity to a multiple of a step.
use vstd::prelude::*;
use crate::options::TemporalRoundingMode;

verus! {

/// `q` rounded to a multiple of `step` under `mode`, for `q >= 0` and
/// `step > 0`. For non-negative quantities the directed modes reduce to
/// rounding down (floor, trunc) or up (ceil, expand); the half modes pick the
/// nearer multiple and differ only on a tie.
pub open spec fn round_to_increment(q: int, step: int, mode: TemporalRoundingMode) -> int {
    let k = q / step;
    let lower = k * step;
    let upper = lower + step;
    let r = q - lower;
    if r == 0 {
        q
    } else {
        match mode {
            TemporalRoundingMode::Ceil | TemporalRoundingMode::Expand => upper,
            TemporalRoundingMode::Floor | TemporalRoundingMode::Trunc => lower,
            TemporalRoundingMode::HalfCeil | TemporalRoundingMode::HalfExpand => {
                if 2 * r >= step {
                    upper
                } else {
                    lower
                }
            },
            TemporalRoundingMode::HalfFloor | TemporalRoundingMode::HalfTrunc => {
                if 2 * r > step {
                    upper
                } else {
                    lower
                }
            },
            TemporalRoundingMode::HalfEven => {
                if 2 * r > step || (2 * r == step && k % 2 == 1) {
                    upper
                } else {
                    lower
                }
            },
        }
    }
}

/// Rounds `quantity` to a multiple of `step` under `mode`.
pub fn round_quantity(quantity: u64, step: u64, mode: TemporalRoundingMode) -> (r: u128)
    requires
        step > 0,
    ensures
        r == round_to_increment(quantity as int, step as int, mode),
{
    let q = quantity as u128;
    let s = step as u128;
    let k = q / s;
    proof {
        assert(k * s <= q) by (nonlinear_arith)
            requires k == q / s, s > 0;
    }
    let lower = k * s;
    let r = q - lower;
    proof {
        assert(r < s) by (nonlinear_arith)
            requires k == q / s, s > 0, r == q - k * s;
    }
    let upper = lower + s;
    if r == 0 {
        return q;
    }
    match mode {
        TemporalRoundingMode::Ceil | TemporalRoundingMode::Expand => upper,
        TemporalRoundingMode::Floor | TemporalRoundingMode::Trunc => lower,
        TemporalRoundingMode::HalfCeil | TemporalRoundingMode::HalfExpand => {
            if 2 * r >= s {
                upper
            } else {
                lower
            }
        },
        TemporalRoundingMode::HalfFloor | TemporalRoundingMode::HalfTrunc => {
            if 2 * r > s {
                upper
            } else {
                lower
            }
        },
        TemporalRoundingMode::HalfEven => {
            if 2 * r > s || (2 * r == s && k % 2 == 1) {
                upper
            } else {
                lower
            }
        },
    }
}

} // verus!
