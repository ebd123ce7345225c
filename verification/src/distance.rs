//! Distance estimated from a signal strength by a linear calibration.

use crate::error::EstimateError;
use crate::fixed::{floor_div_wide, in_range, product, Fixed, SCALE};
use vstd::arithmetic::div_mod::{lemma_div_is_ordered, lemma_hoist_over_denominator};
use vstd::prelude::*;

verus! {

/// `slope * rssi + intercept` in raw units, the product rounded down.
pub open spec fn distance_model(rssi: int, slope: int, intercept: int) -> int {
    (slope * rssi) / (SCALE as int) + intercept
}

/// The slope and the intercept that turn one station's signal strength into
/// a distance.
#[derive(Clone, Copy, Debug, PartialEq, Eq, Structural)]
pub struct Calibration {
    pub slope: Fixed,
    pub intercept: Fixed,
}

impl View for Calibration {
    type V = (int, int);

    open spec fn view(&self) -> (int, int) {
        (self.slope@, self.intercept@)
    }
}

/// The distance `slope * rssi + intercept`. Nothing is clamped: a reading
/// outside the calibrated range gives a negative distance.
///
/// Fails with `OutOfRange` exactly when the distance does not fit.
pub fn distance(rssi: Fixed, slope: Fixed, intercept: Fixed) -> (r: Result<Fixed, EstimateError>)
    ensures
        r is Ok <==> in_range(distance_model(rssi@, slope@, intercept@)),
        r matches Ok(d) ==> d@ == distance_model(rssi@, slope@, intercept@),
        r matches Err(e) ==> e == EstimateError::OutOfRange,
{
    let scaled = floor_div_wide(product(slope.raw(), rssi.raw()), SCALE as i128);
    Fixed::narrow(scaled + intercept.wide())
}

impl Calibration {
    /// The distance that this calibration gives to the reading `rssi`.
    pub fn distance(&self, rssi: Fixed) -> (r: Result<Fixed, EstimateError>)
        ensures
            r is Ok <==> in_range(distance_model(rssi@, self@.0, self@.1)),
            r matches Ok(d) ==> d@ == distance_model(rssi@, self@.0, self@.1),
            r matches Err(e) ==> e == EstimateError::OutOfRange,
    {
        distance(rssi, self.slope, self.intercept)
    }
}

/// The affine value `slope * rssi + intercept`, taken exactly, is rounded
/// down by less than one raw unit.
pub proof fn law_distance_rounds_affine_value_down(rssi: int, slope: int, intercept: int)
    ensures
        distance_model(rssi, slope, intercept) * SCALE <= slope * rssi + intercept * SCALE,
        slope * rssi + intercept * SCALE < distance_model(rssi, slope, intercept) * SCALE + SCALE,
{
    let p = slope * rssi;
    assert(p == (p / (SCALE as int)) * SCALE + p % (SCALE as int));
}

/// The estimate is affine without rounding along whole steps of the reading:
/// `steps` whole units more of signal strength add `slope * steps`, and
/// `shift` more of intercept adds `shift`.
pub proof fn law_distance_affine(rssi: int, slope: int, intercept: int, steps: int, shift: int)
    ensures
        distance_model(rssi + steps * SCALE, slope, intercept + shift) == distance_model(
            rssi,
            slope,
            intercept,
        ) + slope * steps + shift,
        distance_model(steps * SCALE, slope, intercept) == slope * steps + intercept,
{
    let s = SCALE as int;
    assert(slope * (rssi + steps * s) == slope * rssi + (slope * steps) * s) by (nonlinear_arith);
    lemma_hoist_over_denominator(slope * rssi, slope * steps, s as nat);
    assert(slope * (steps * s) == 0 + (slope * steps) * s) by (nonlinear_arith);
    lemma_hoist_over_denominator(0, slope * steps, s as nat);
}

/// With a slope that is not positive, a weaker signal never gives a shorter
/// distance.
pub proof fn law_weaker_signal_is_farther(weaker: int, stronger: int, slope: int, intercept: int)
    requires
        weaker <= stronger,
        slope <= 0,
    ensures
        distance_model(weaker, slope, intercept) >= distance_model(stronger, slope, intercept),
{
    assert(slope * stronger <= slope * weaker) by (nonlinear_arith)
        requires
            weaker <= stronger,
            slope <= 0,
    ;
    lemma_div_is_ordered(slope * stronger, slope * weaker, SCALE as int);
}

} // verus!
