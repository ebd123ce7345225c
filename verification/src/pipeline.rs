//! The whole estimate: frame, solver, selector.

use crate::error::EstimateError;
use crate::fixed::{in_range, Fixed};
use crate::frame::{
    collinear, frame_model, law_baseline_passes_through_stations, point_view, reference_frame,
    reference_frame_model, Point,
};
use crate::select::{
    baseline_norm, disambiguate, distance_error, distance_squared,
    law_consistent_candidate_is_kept, law_mirror_distance, law_rejected_candidate_is_mirrored,
    mirror_distance_squared, near_mirror, select_model, within,
};
use crate::solver::{
    cross, law_intersection_is_fixed, newton_raphson, residual_first, residual_second, solve_model,
    valid_damping, Circles, CirclesModel, PolicyModel, SolverPolicy,
};
use vstd::prelude::*;

verus! {

/// A deployment in raw units.
pub struct ConfigurationModel {
    pub first: (int, int),
    pub second: (int, int),
    pub third: (int, int),
    pub policy: PolicyModel,
}

/// What a deployment fixes ahead of every estimate: where its three stations
/// stand and how the solver is run.
#[derive(Clone, Copy, Debug, PartialEq, Eq, Structural)]
pub struct Configuration {
    pub first: Point,
    pub second: Point,
    pub third: Point,
    pub policy: SolverPolicy,
}

impl View for Configuration {
    type V = ConfigurationModel;

    open spec fn view(&self) -> ConfigurationModel {
        ConfigurationModel {
            first: self.first@,
            second: self.second@,
            third: self.third@,
            policy: self.policy@,
        }
    }
}

/// The estimate for the distances `r1`, `r2`, `r3` and the tolerance `eps`:
/// the frame of the stations, then the solver's candidate for the first two
/// circles, then the selector's choice by the third distance. The first
/// stage that fails gives the error.
pub open spec fn estimate_model(
    config: ConfigurationModel,
    r1: int,
    r2: int,
    r3: int,
    eps: int,
) -> Result<(int, int), EstimateError> {
    match reference_frame_model(config.first, config.second, config.third) {
        Err(e) => Err(e),
        Ok(f) => match solve_model(
            CirclesModel { x2: f.x2p, y2: f.y2p, r1: r1, r2: r2 },
            config.policy,
        ) {
            Err(e) => Err(e),
            Ok(q) => match select_model(f, q, r3, eps) {
                Err(e) => Err(e),
                Ok(s) => Ok(s.1),
            },
        },
    }
}

/// Estimates the transmitter's position from its distances to the three
/// stations.
///
/// The result depends on the arguments alone: equal arguments give equal
/// results, whatever was computed before.
pub fn estimate_position(config: &Configuration, r1: Fixed, r2: Fixed, r3: Fixed, eps: Fixed) -> (r:
    Result<Point, EstimateError>)
    ensures
        point_view(r) == estimate_model(config@, r1@, r2@, r3@, eps@),
{
    let frame = reference_frame(config.first, config.second, config.third)?;
    let circles = Circles { centre: frame.second, r1, r2 };
    let candidate = newton_raphson(&circles, &config.policy)?;
    let chosen = disambiguate(&frame, candidate, r3, eps)?;
    Ok(chosen.position)
}

/// The contract of `estimate_position` admits one result only: two results
/// for the same arguments are equal in every digit.
pub proof fn law_estimate_is_deterministic(
    config: Configuration,
    r1: Fixed,
    r2: Fixed,
    r3: Fixed,
    eps: Fixed,
    once: Result<Point, EstimateError>,
    again: Result<Point, EstimateError>,
)
    requires
        point_view(once) == estimate_model(config@, r1@, r2@, r3@, eps@),
        point_view(again) == estimate_model(config@, r1@, r2@, r3@, eps@),
    ensures
        once == again,
{
    if let Ok(p) = once {
        let q = again->Ok_0;
        Fixed::lemma_view_determines(p.x, q.x);
        Fixed::lemma_view_determines(p.y, q.y);
    }
}

/// A fixed-step estimate seeded at a point where both circles meet, whose
/// distance to the third station agrees with `r3` within the tolerance,
/// returns that point.
pub proof fn law_exact_seed_is_returned(
    config: ConfigurationModel,
    r1: int,
    r2: int,
    r3: int,
    eps: int,
)
    requires
        config.policy is FixedStep,
        valid_damping(config.policy->eta),
        reference_frame_model(config.first, config.second, config.third) is Ok,
        ({
            let f = frame_model(config.first, config.second, config.third);
            let c = CirclesModel { x2: f.x2p, y2: f.y2p, r1: r1, r2: r2 };
            let seed = config.policy->seed;
            &&& in_range(seed.0) && in_range(seed.1)
            &&& cross(c, seed) != 0
            &&& residual_first(c, seed) == 0
            &&& residual_second(c, seed) == 0
            &&& within(distance_error(f, seed, r3), eps)
            &&& in_range(seed.0 + f.x1) && in_range(seed.1 + f.y1)
        }),
    ensures
        estimate_model(config, r1, r2, r3, eps) == Ok::<(int, int), EstimateError>(
            (config.policy->seed.0 + config.first.0, config.policy->seed.1 + config.first.1),
        ),
{
    let f = frame_model(config.first, config.second, config.third);
    let c = CirclesModel { x2: f.x2p, y2: f.y2p, r1: r1, r2: r2 };
    let seed = config.policy->seed;
    law_intersection_is_fixed(c, config.policy->eta, seed, config.policy->iterations);
    if f.a == 0 && f.b == 0 {
        assert(0 * (config.third.1 - config.first.1) == 0 * (config.third.0 - config.first.0))
            by (nonlinear_arith);
        assert(collinear(config.first, config.second, config.third));
    }
    assert(baseline_norm(f) != 0) by (nonlinear_arith)
        requires
            baseline_norm(f) == f.a * f.a + f.b * f.b,
            f.a != 0 || f.b != 0,
    ;
    law_consistent_candidate_is_kept(f, seed, r3, eps);
}

/// The mirror image of a point in the baseline is as far from each of the
/// first two stations as the point itself: where the point lies on both
/// circles, so does its image.
pub proof fn law_mirror_keeps_both_circles(
    s1: (int, int),
    s2: (int, int),
    s3: (int, int),
    q: (int, int),
)
    ensures
        ({
            let f = frame_model(s1, s2, s3);
            let n = baseline_norm(f);
            &&& mirror_distance_squared(f, q, (0, 0)) == distance_squared(q, (0, 0)) * (n * n)
            &&& mirror_distance_squared(f, q, (f.x2p, f.y2p)) == distance_squared(
                q,
                (f.x2p, f.y2p),
            ) * (n * n)
        }),
{
    let f = frame_model(s1, s2, s3);
    law_baseline_passes_through_stations(s1, s2, s3, s1);
    law_mirror_distance(f, q, (0, 0));
    law_mirror_distance(f, q, (f.x2p, f.y2p));
}

/// A fixed-step estimate seeded at a point where both circles meet, whose
/// distance to the third station does not agree with `r3`, returns the mirror
/// image of that point in the baseline, up to rounding.
pub proof fn law_exact_seed_on_the_far_side_is_mirrored(
    config: ConfigurationModel,
    r1: int,
    r2: int,
    r3: int,
    eps: int,
)
    requires
        config.policy is FixedStep,
        valid_damping(config.policy->eta),
        reference_frame_model(config.first, config.second, config.third) is Ok,
        ({
            let f = frame_model(config.first, config.second, config.third);
            let c = CirclesModel { x2: f.x2p, y2: f.y2p, r1: r1, r2: r2 };
            let seed = config.policy->seed;
            &&& in_range(seed.0) && in_range(seed.1)
            &&& cross(c, seed) != 0
            &&& residual_first(c, seed) == 0
            &&& residual_second(c, seed) == 0
            &&& !within(distance_error(f, seed, r3), eps)
        }),
    ensures
        estimate_model(config, r1, r2, r3, eps) matches Ok(p) ==> near_mirror(
            frame_model(config.first, config.second, config.third),
            config.policy->seed,
            (p.0 - config.first.0, p.1 - config.first.1),
        ),
{
    let f = frame_model(config.first, config.second, config.third);
    let c = CirclesModel { x2: f.x2p, y2: f.y2p, r1: r1, r2: r2 };
    let seed = config.policy->seed;
    law_intersection_is_fixed(c, config.policy->eta, seed, config.policy->iterations);
    if f.a == 0 && f.b == 0 {
        assert(0 * (config.third.1 - config.first.1) == 0 * (config.third.0 - config.first.0))
            by (nonlinear_arith);
        assert(collinear(config.first, config.second, config.third));
    }
    assert(baseline_norm(f) != 0) by (nonlinear_arith)
        requires
            baseline_norm(f) == f.a * f.a + f.b * f.b,
            f.a != 0 || f.b != 0,
    ;
    law_rejected_candidate_is_mirrored(f, seed, r3, eps);
}

} // verus!
