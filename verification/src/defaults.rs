//! The deployment that is used where nothing else is configured: three
//! stations with their labels and calibrations, and the solver settings that
//! go with them.

use crate::distance::{distance_model, Calibration};
use crate::error::EstimateError;
use crate::fixed::{in_range, lemma_product_bound, magnitude, Fixed};
use crate::frame::{point_view, Point};
use crate::pipeline::{estimate_model, estimate_position, Configuration, ConfigurationModel};
use crate::solver::{PolicyModel, SolverPolicy};
use crate::station::{Deployment, Station};
use vstd::prelude::*;

verus! {

/// The number of `raw` millionths, for a `raw` within the limit.
fn fixed(raw: i64) -> (r: Fixed)
    requires
        in_range(raw as int),
    ensures
        r@ == raw,
{
    Fixed::from_raw(raw).unwrap()
}

/// The calibration of station 3AC3: slope -0.35, intercept -29.
pub fn calibration_3ac3() -> (r: Calibration)
    ensures
        r@ == (-350_000int, -29_000_000int),
{
    Calibration { slope: fixed(-350_000), intercept: fixed(-29_000_000) }
}

/// The calibration of station 3ACB: slope -0.83, intercept -36.5.
pub fn calibration_3acb() -> (r: Calibration)
    ensures
        r@ == (-830_000int, -36_500_000int),
{
    Calibration { slope: fixed(-830_000), intercept: fixed(-36_500_000) }
}

/// The calibration of station BF94: slope -1.34, intercept -70.67.
pub fn calibration_bf94() -> (r: Calibration)
    ensures
        r@ == (-1_340_000int, -70_670_000int),
{
    Calibration { slope: fixed(-1_340_000), intercept: fixed(-70_670_000) }
}

/// The distance of station 3AC3 for a reading: `-0.35 * rssi - 29`. It fits
/// for every reading.
pub fn distance_3ac3(rssi: Fixed) -> (r: Result<Fixed, EstimateError>)
    ensures
        r matches Ok(d) && d@ == distance_model(rssi@, -350_000, -29_000_000),
{
    let reading = rssi.raw();
    proof {
        lemma_product_bound(-350_000, reading as int, 350_000, 1_000_000_000_000_000);
    }
    calibration_3ac3().distance(rssi)
}

/// The distance of station 3ACB for a reading: `-0.83 * rssi - 36.5`. It
/// fits for every reading.
pub fn distance_3acb(rssi: Fixed) -> (r: Result<Fixed, EstimateError>)
    ensures
        r matches Ok(d) && d@ == distance_model(rssi@, -830_000, -36_500_000),
{
    let reading = rssi.raw();
    proof {
        lemma_product_bound(-830_000, reading as int, 830_000, 1_000_000_000_000_000);
    }
    calibration_3acb().distance(rssi)
}

/// The distance of station BF94 for a reading: `-1.34 * rssi - 70.67`.
///
/// Fails with `OutOfRange` exactly when the distance does not fit, which no
/// reading of at most 746 million units in magnitude brings about.
pub fn distance_bf94(rssi: Fixed) -> (r: Result<Fixed, EstimateError>)
    ensures
        r is Ok <==> in_range(distance_model(rssi@, -1_340_000, -70_670_000)),
        r matches Ok(d) ==> d@ == distance_model(rssi@, -1_340_000, -70_670_000),
        r matches Err(e) ==> e == EstimateError::OutOfRange,
        magnitude(rssi@) <= 746_000_000_000_000 ==> r is Ok,
{
    let reading = rssi.raw();
    proof {
        if magnitude(reading as int) <= 746_000_000_000_000 {
            lemma_product_bound(-1_340_000, reading as int, 1_340_000, 746_000_000_000_000);
        }
    }
    calibration_bf94().distance(rssi)
}

/// The stations 3AC3 at (2, 1), 3ACB at (13, 6) and BF94 at (12, 1), each
/// with its calibration.
pub fn default_deployment() -> (r: Deployment)
    ensures
        r.first.label@ == "3AC3"@,
        r.second.label@ == "3ACB"@,
        r.third.label@ == "BF94"@,
        r.first.position@ == (2_000_000int, 1_000_000int),
        r.second.position@ == (13_000_000int, 6_000_000int),
        r.third.position@ == (12_000_000int, 1_000_000int),
        r.first.calibration@ == (-350_000int, -29_000_000int),
        r.second.calibration@ == (-830_000int, -36_500_000int),
        r.third.calibration@ == (-1_340_000int, -70_670_000int),
{
    Deployment {
        first: Station {
            label: "3AC3".to_owned(),
            position: Point { x: fixed(2_000_000), y: fixed(1_000_000) },
            calibration: calibration_3ac3(),
        },
        second: Station {
            label: "3ACB".to_owned(),
            position: Point { x: fixed(13_000_000), y: fixed(6_000_000) },
            calibration: calibration_3acb(),
        },
        third: Station {
            label: "BF94".to_owned(),
            position: Point { x: fixed(12_000_000), y: fixed(1_000_000) },
            calibration: calibration_bf94(),
        },
    }
}

/// Five steps, damped by 0.2, from the seed (4.5, 3).
pub fn default_policy() -> (r: SolverPolicy)
    ensures
        r@ == default_policy_model(),
{
    SolverPolicy::FixedStep {
        iterations: 5,
        eta: fixed(200_000),
        seed: Point { x: fixed(4_500_000), y: fixed(3_000_000) },
    }
}

/// The default tolerance: 25 squared units, which lets a
/// candidate be about five units off.
pub fn default_tolerance() -> (r: Fixed)
    ensures
        r@ == 25_000_000,
{
    fixed(25_000_000)
}

/// The default policy, in raw units.
pub open spec fn default_policy_model() -> PolicyModel {
    PolicyModel::FixedStep { iterations: 5, eta: 200_000, seed: (4_500_000, 3_000_000) }
}

/// The default stations under the default policy, in raw units.
pub open spec fn default_configuration_model() -> ConfigurationModel {
    ConfigurationModel {
        first: (2_000_000, 1_000_000),
        second: (13_000_000, 6_000_000),
        third: (12_000_000, 1_000_000),
        policy: default_policy_model(),
    }
}

/// The default stations under the default policy.
pub fn default_configuration() -> (r: Configuration)
    ensures
        r@ == default_configuration_model(),
{
    default_deployment().configuration(default_policy())
}

/// The estimate for the default stations under the default policy.
pub fn get_position(r1: Fixed, r2: Fixed, r3: Fixed, eps: Fixed) -> (r: Result<Point, EstimateError>)
    ensures
        point_view(r) == estimate_model(default_configuration_model(), r1@, r2@, r3@, eps@),
{
    estimate_position(&default_configuration(), r1, r2, r3, eps)
}

} // verus!
