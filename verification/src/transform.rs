//! The parts of the transformers that decide on values: the h-bridge split,
//! clamping, and the limiter's parameters and starting point. Values are
//! binary64 numbers held by their bit patterns.
use vstd::prelude::*;
use crate::error::{IocBuildError, ErrorView, error_view};
use crate::ieee::{FloatBits, is_nan_bits, ieee_lt, ieee_eq, ieee_min, ieee_max, ieee_neg, order_key,
    sign_set, magnitude, INF_BITS, NEG_INF_BITS, ONE_BITS, ZERO_BITS, SIGN_BIT};

verus! {

/// `a <= b` as IEEE numbers (false when either is a NaN).
pub open spec fn ieee_le(a: u64, b: u64) -> bool {
    !is_nan_bits(a) && !is_nan_bits(b) && order_key(a) <= order_key(b)
}

/// The h-bridge's three outputs for an input: (forward, reverse, enable).
/// Forward is the input when it is positive, reverse is minus the input when
/// it is negative, each zero otherwise; enable is one when either is set.
pub open spec fn hbridge_spec(input: u64) -> (u64, u64, u64) {
    if ieee_lt(ZERO_BITS, input) {
        (input, ZERO_BITS, ONE_BITS)
    } else if ieee_lt(input, ZERO_BITS) {
        (ZERO_BITS, ieee_neg(input), ONE_BITS)
    } else {
        (ZERO_BITS, ZERO_BITS, ZERO_BITS)
    }
}

/// Splits a signed drive value into forward, reverse and enable.
pub fn hbridge_outputs(input: FloatBits) -> (r: (FloatBits, FloatBits, FloatBits))
    ensures
        (r.0.bits, r.1.bits, r.2.bits) == hbridge_spec(input.bits),
{
    let zero = FloatBits::zero();
    if zero.lt(&input) {
        (input, zero, FloatBits::one())
    } else if input.lt(&zero) {
        (zero, input.neg(), FloatBits::one())
    } else {
        (zero, zero, zero)
    }
}

/// Negating a value mirrors it around zero.
proof fn lemma_neg_mirrors(a: u64)
    requires
        !is_nan_bits(a),
    ensures
        !is_nan_bits(ieee_neg(a)),
        order_key(ieee_neg(a)) == -order_key(a),
{
}

/// The h-bridge never drives both ways: for a number, at most one of forward
/// and reverse is non-zero, neither is negative, and enable is one exactly
/// when the input is not zero. A NaN input turns everything off.
pub proof fn law_hbridge_one_direction(input: u64)
    ensures
        !is_nan_bits(input) ==> {
            let (f, r, e) = hbridge_spec(input);
            &&& (ieee_eq(f, ZERO_BITS) || ieee_eq(r, ZERO_BITS))
            &&& ieee_le(ZERO_BITS, f)
            &&& ieee_le(ZERO_BITS, r)
            &&& (e == ONE_BITS <==> !ieee_eq(input, ZERO_BITS))
            &&& (e == ZERO_BITS <==> ieee_eq(input, ZERO_BITS))
        },
        is_nan_bits(input) ==> hbridge_spec(input) == (ZERO_BITS, ZERO_BITS, ZERO_BITS),
{
    if !is_nan_bits(input) {
        lemma_neg_mirrors(input);
    }
}

/// `x.min(max).max(min)`: the value the clamp transformer emits.
pub open spec fn clamp_spec(x: u64, min: u64, max: u64) -> u64 {
    ieee_max(ieee_min(x, max), min)
}

/// Clamps `x` to `min ..= max`.
pub fn clamp(x: FloatBits, min: FloatBits, max: FloatBits) -> (r: FloatBits)
    ensures
        r.bits == clamp_spec(x.bits, min.bits, max.bits),
{
    x.min(&max).max(&min)
}

/// With numeric bounds `min <= max`, the clamp's output is a number within
/// them, and an input that is already within them passes unchanged.
pub proof fn law_clamp_within(x: u64, min: u64, max: u64)
    requires
        ieee_le(min, max),
    ensures
        ieee_le(min, clamp_spec(x, min, max)),
        ieee_le(clamp_spec(x, min, max), max),
        ieee_le(min, x) && ieee_le(x, max) ==> clamp_spec(x, min, max) == x,
{
}

/// The limiter's bounds: the output range, the velocity range and the
/// acceleration range, and its frame period.
#[derive(Clone, Copy, Debug)]
pub struct LimiterParams {
    pub min: FloatBits,
    pub max: FloatBits,
    pub dmin: FloatBits,
    pub dmax: FloatBits,
    pub ddmin: FloatBits,
    pub ddmax: FloatBits,
    pub period_ms: u64,
}

/// Whether the range `lo ..= hi` is usable: no NaN and `lo <= hi`.
pub open spec fn range_ok(lo: u64, hi: u64) -> bool {
    !ieee_lt(hi, lo) && !is_nan_bits(lo) && !is_nan_bits(hi)
}

/// The error, if any, in a set of limiter bounds.
pub open spec fn limiter_params_error(p: LimiterParams) -> Option<ErrorView> {
    if !range_ok(p.min.bits, p.max.bits) {
        Some(ErrorView::Message("must have min < max and non NaN values in limiter"@))
    } else if !range_ok(p.dmin.bits, p.dmax.bits) {
        Some(ErrorView::Message("must have dmin < dmax and non NaN values in limiter"@))
    } else if !range_ok(p.ddmin.bits, p.ddmax.bits) {
        Some(ErrorView::Message("must have ddmin < ddmax and non NaN values in limiter"@))
    } else {
        None
    }
}

/// The limiter's starting position: `start.max(min).min(max)`.
pub open spec fn limiter_start_spec(start: u64, p: LimiterParams) -> u64 {
    ieee_min(ieee_max(start, p.min.bits), p.max.bits)
}

impl LimiterParams {
    /// No bounds at all, and a frame every 25 ms.
    pub fn default() -> (r: Self)
        ensures
            r.min.bits == NEG_INF_BITS,
            r.max.bits == INF_BITS,
            r.dmin.bits == NEG_INF_BITS,
            r.dmax.bits == INF_BITS,
            r.ddmin.bits == NEG_INF_BITS,
            r.ddmax.bits == INF_BITS,
            r.period_ms == 25,
    {
        let lo = FloatBits::from_bits(NEG_INF_BITS);
        let hi = FloatBits::from_bits(INF_BITS);
        LimiterParams { min: lo, max: hi, dmin: lo, dmax: hi, ddmin: lo, ddmax: hi, period_ms: 25 }
    }

    /// Checks the bounds: each range must be free of NaN with its low end
    /// not above its high end.
    pub fn check(&self) -> (r: Result<(), IocBuildError>)
        ensures
            match limiter_params_error(*self) {
                Some(e) => r matches Err(err) && error_view(err) == e,
                None => r is Ok,
            },
    {
        if self.max.lt(&self.min) || self.min.is_nan() || self.max.is_nan() {
            return Err(IocBuildError::message("must have min < max and non NaN values in limiter"));
        }
        if self.dmax.lt(&self.dmin) || self.dmin.is_nan() || self.dmax.is_nan() {
            return Err(IocBuildError::message("must have dmin < dmax and non NaN values in limiter"));
        }
        if self.ddmax.lt(&self.ddmin) || self.ddmin.is_nan() || self.ddmax.is_nan() {
            return Err(IocBuildError::message("must have ddmin < ddmax and non NaN values in limiter"));
        }
        Ok(())
    }

    /// The limiter's starting position for the input value `start`, after
    /// checking the bounds.
    pub fn initial_position(&self, start: FloatBits) -> (r: Result<FloatBits, IocBuildError>)
        ensures
            match limiter_params_error(*self) {
                Some(e) => r matches Err(err) && error_view(err) == e,
                None => r matches Ok(x) && x.bits == limiter_start_spec(start.bits, *self),
            },
    {
        match self.check() {
            Err(e) => Err(e),
            Ok(()) => Ok(start.max(&self.min).min(&self.max)),
        }
    }
}

/// With valid bounds the limiter starts at a number within its output range,
/// and at the input value itself when that is within the range.
pub proof fn law_limiter_starts_in_range(start: u64, p: LimiterParams)
    requires
        limiter_params_error(p) is None,
    ensures
        ieee_le(p.min.bits, limiter_start_spec(start, p)),
        ieee_le(limiter_start_spec(start, p), p.max.bits),
        ieee_le(p.min.bits, start) && ieee_le(start, p.max.bits) ==> limiter_start_spec(start, p) == start,
{
}

} // verus!
