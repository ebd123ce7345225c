//! Intersection of two circles by Newton's method.
//!
//! The first circle has its centre at the origin, the second at the second
//! station. An iterate `(x, y)` is judged by the two residuals
//! `f0 = x^2 + y^2 - r1^2` and `f1 = (x - x2)^2 + (y - y2)^2 - r2^2`.

use crate::error::EstimateError;
use crate::fixed::{
    div_floor, floor_div_wide, in_range, lemma_product_bound, magnitude, product, Fixed, LIMIT,
    LIMIT_SQUARED, SCALE,
};
use crate::frame::{collinear, point_view, Point};
use vstd::prelude::*;

verus! {

/// Two circles in raw units: the first about the origin with radius `r1`,
/// the second about `(x2, y2)` with radius `r2`.
pub struct CirclesModel {
    pub x2: int,
    pub y2: int,
    pub r1: int,
    pub r2: int,
}

/// The two circles whose intersection is sought.
#[derive(Clone, Copy, Debug, PartialEq, Eq, Structural)]
pub struct Circles {
    /// The centre of the second circle; the first has the origin.
    pub centre: Point,
    pub r1: Fixed,
    pub r2: Fixed,
}

impl View for Circles {
    type V = CirclesModel;

    open spec fn view(&self) -> CirclesModel {
        CirclesModel { x2: self.centre.x@, y2: self.centre.y@, r1: self.r1@, r2: self.r2@ }
    }
}

/// The two residuals of an iterate.
#[derive(Clone, Copy, Debug, PartialEq, Eq, Structural)]
pub struct Residuals {
    pub first: Fixed,
    pub second: Fixed,
}

impl View for Residuals {
    type V = (int, int);

    open spec fn view(&self) -> (int, int) {
        (self.first@, self.second@)
    }
}

/// How the iteration is controlled, in raw units.
pub enum PolicyModel {
    ConvergenceDriven { epsilon: int, max_iter: nat },
    FixedStep { iterations: nat, eta: int, seed: (int, int) },
}

/// How the iteration is controlled.
#[derive(Clone, Copy, Debug, PartialEq, Eq, Structural)]
pub enum SolverPolicy {
    /// Start at the origin and take full steps until the squared residuals
    /// sum to at most `epsilon`, giving up after `max_iter` steps.
    ConvergenceDriven { epsilon: Fixed, max_iter: u32 },
    /// Start at `seed` and take `iterations` steps, each damped by `eta`.
    FixedStep { iterations: u32, eta: Fixed, seed: Point },
}

impl View for SolverPolicy {
    type V = PolicyModel;

    open spec fn view(&self) -> PolicyModel {
        match *self {
            SolverPolicy::ConvergenceDriven { epsilon, max_iter } => PolicyModel::ConvergenceDriven {
                epsilon: epsilon@,
                max_iter: max_iter as nat,
            },
            SolverPolicy::FixedStep { iterations, eta, seed } => PolicyModel::FixedStep {
                iterations: iterations as nat,
                eta: eta@,
                seed: seed@,
            },
        }
    }
}

/// `x^2 + y^2 - r1^2`, rounded down to raw units.
pub open spec fn residual_first(c: CirclesModel, s: (int, int)) -> int {
    (s.0 * s.0 + s.1 * s.1 - c.r1 * c.r1) / (SCALE as int)
}

/// `(x - x2)^2 + (y - y2)^2 - r2^2`, rounded down to raw units.
pub open spec fn residual_second(c: CirclesModel, s: (int, int)) -> int {
    ((s.0 - c.x2) * (s.0 - c.x2) + (s.1 - c.y2) * (s.1 - c.y2) - c.r2 * c.r2) / (SCALE as int)
}

/// Both residuals, where they fit.
pub open spec fn residuals_model(c: CirclesModel, s: (int, int)) -> Result<
    (int, int),
    EstimateError,
> {
    if in_range(residual_first(c, s)) && in_range(residual_second(c, s)) {
        Ok((residual_first(c, s), residual_second(c, s)))
    } else {
        Err(EstimateError::OutOfRange)
    }
}

/// `f0^2 + f1^2 <= epsilon`.
pub open spec fn converged(f: (int, int), epsilon: int) -> bool {
    f.0 * f.0 + f.1 * f.1 <= epsilon * SCALE
}

/// `y * x2 - x * y2`: zero exactly when the origin, the second centre and
/// the iterate lie on one line.
pub open spec fn cross(c: CirclesModel, s: (int, int)) -> int {
    s.1 * c.x2 - s.0 * c.y2
}

/// A damping factor in `(0, 1]`.
pub open spec fn valid_damping(eta: int) -> bool {
    0 < eta <= SCALE
}

/// The iterate after one update with the residuals `f`:
/// `x - c * (dy * f0 - y * f1)` and `y - c * (-dx * f0 + x * f1)` with
/// `c = 2 * eta / cross`, each correction rounded down once.
pub open spec fn update_model(c: CirclesModel, eta: int, s: (int, int), f: (int, int)) -> Result<
    (int, int),
    EstimateError,
> {
    let k = cross(c, s);
    let nx = (s.1 - c.y2) * f.0 - s.1 * f.1;
    let ny = -(s.0 - c.x2) * f.0 + s.0 * f.1;
    let x = s.0 - div_floor(2 * eta * nx, k);
    let y = s.1 - div_floor(2 * eta * ny, k);
    if k == 0 {
        Err(EstimateError::SolverDegenerate)
    } else if in_range(x) && in_range(y) {
        Ok((x, y))
    } else {
        Err(EstimateError::OutOfRange)
    }
}

/// One Newton step from `s`.
pub open spec fn step_model(c: CirclesModel, eta: int, s: (int, int)) -> Result<
    (int, int),
    EstimateError,
> {
    if !valid_damping(eta) {
        Err(EstimateError::ConfigurationError)
    } else if cross(c, s) == 0 {
        Err(EstimateError::SolverDegenerate)
    } else {
        match residuals_model(c, s) {
            Ok(f) => update_model(c, eta, s, f),
            Err(e) => Err(e),
        }
    }
}

/// `n` Newton steps from `s`, stopping at the first that fails.
pub open spec fn iterate_model(c: CirclesModel, eta: int, s: (int, int), n: nat) -> Result<
    (int, int),
    EstimateError,
>
    decreases n,
{
    if n == 0 {
        Ok(s)
    } else {
        match step_model(c, eta, s) {
            Ok(t) => iterate_model(c, eta, t, (n - 1) as nat),
            Err(e) => Err(e),
        }
    }
}

/// Full steps from `s` until the residuals are within `epsilon`, with at
/// most `budget` steps. Residuals too large to be stored are not within any
/// tolerance.
pub open spec fn converge_model(c: CirclesModel, epsilon: int, s: (int, int), budget: nat) -> Result<
    (int, int),
    EstimateError,
>
    decreases budget,
{
    if converged((residual_first(c, s), residual_second(c, s)), epsilon) {
        Ok(s)
    } else if budget == 0 {
        Err(EstimateError::NonConvergence)
    } else {
        match step_model(c, SCALE as int, s) {
            Ok(t) => converge_model(c, epsilon, t, (budget - 1) as nat),
            Err(e) => Err(e),
        }
    }
}

/// What the solver returns under a policy.
pub open spec fn solve_model(c: CirclesModel, policy: PolicyModel) -> Result<
    (int, int),
    EstimateError,
> {
    match policy {
        PolicyModel::ConvergenceDriven { epsilon, max_iter } => converge_model(
            c,
            epsilon,
            (0, 0),
            max_iter,
        ),
        PolicyModel::FixedStep { iterations, eta, seed } => if valid_damping(eta) {
            iterate_model(c, eta, seed, iterations)
        } else {
            Err(EstimateError::ConfigurationError)
        },
    }
}

/// The view of a result that holds residuals.
pub open spec fn residuals_view(r: Result<Residuals, EstimateError>) -> Result<
    (int, int),
    EstimateError,
> {
    match r {
        Ok(f) => Ok(f@),
        Err(e) => Err(e),
    }
}

impl Residuals {
    /// Whether the squares of the residuals sum to at most `epsilon`.
    pub fn converged(&self, epsilon: Fixed) -> (r: bool)
        ensures
            r == converged(self@, epsilon@),
    {
        let f0 = self.first.raw();
        let f1 = self.second.raw();
        product(f0, f0) + product(f1, f1) <= product(epsilon.raw(), SCALE)
    }
}

/// The residuals of the iterate `s`.
///
/// Fails with `OutOfRange` exactly when one of them does not fit.
pub fn residuals(circles: &Circles, s: Point) -> (r: Result<Residuals, EstimateError>)
    ensures
        residuals_view(r) == residuals_model(circles@, s@),
{
    let x = s.x.raw();
    let y = s.y.raw();
    let r1 = circles.r1.raw();
    let r2 = circles.r2.raw();
    let dx = x - circles.centre.x.raw();
    let dy = y - circles.centre.y.raw();
    let w0 = product(x, x) + product(y, y) - product(r1, r1);
    let w1 = product(dx, dx) + product(dy, dy) - product(r2, r2);
    let first = Fixed::narrow(floor_div_wide(w0, SCALE as i128));
    let second = Fixed::narrow(floor_div_wide(w1, SCALE as i128));
    match (first, second) {
        (Ok(first), Ok(second)) => Ok(Residuals { first, second }),
        _ => Err(EstimateError::OutOfRange),
    }
}

/// The correction `2 * eta * n / k`, rounded down.
fn correction(eta: i64, n: i128, k: i128) -> (r: i128)
    requires
        valid_damping(eta as int),
        magnitude(n as int) <= 3 * LIMIT_SQUARED,
        magnitude(k as int) <= 2 * LIMIT_SQUARED,
        k != 0,
    ensures
        r == div_floor(2 * eta * n, k as int),
        magnitude(r as int) <= 6_000_000 * LIMIT_SQUARED,
{
    proof {
        lemma_product_bound(
            eta as int,
            n as int,
            1_000_000,
            3_000_000_000_000_000_000_000_000_000_000,
        );
        assert(2 * eta * n == 2 * (eta * n)) by (nonlinear_arith);
    }
    let scaled = 2 * ((eta as i128) * n);
    floor_div_wide(scaled, k)
}

/// One update of the iterate `s` with its residuals `f`.
fn newton_update(circles: &Circles, eta: Fixed, s: Point, f: Residuals) -> (r: Result<
    Point,
    EstimateError,
>)
    requires
        valid_damping(eta@),
    ensures
        point_view(r) == update_model(circles@, eta@, s@, f@),
{
    let x = s.x.raw();
    let y = s.y.raw();
    let x2 = circles.centre.x.raw();
    let y2 = circles.centre.y.raw();
    let f0 = f.first.raw();
    let f1 = f.second.raw();
    let k = product(y, x2) - product(x, y2);
    if k == 0 {
        return Err(EstimateError::SolverDegenerate);
    }
    let nx = product(y - y2, f0) - product(y, f1);
    let ny = product(x, f1) - product(x - x2, f0);
    proof {
        assert(-(x - x2) * f0 + x * f1 == x * f1 - (x - x2) * f0) by (nonlinear_arith);
    }
    let next_x = Fixed::narrow(x as i128 - correction(eta.raw(), nx, k));
    let next_y = Fixed::narrow(y as i128 - correction(eta.raw(), ny, k));
    match (next_x, next_y) {
        (Ok(x), Ok(y)) => Ok(Point { x, y }),
        _ => Err(EstimateError::OutOfRange),
    }
}

/// One Newton step from `s`, damped by `eta`.
///
/// Fails with `ConfigurationError` exactly when `eta` is outside `(0, 1]`;
/// otherwise with `SolverDegenerate` exactly when the origin, the second
/// centre and `s` lie on one line; otherwise with `OutOfRange` exactly when
/// a residual or a new coordinate does not fit.
pub fn newton_step(circles: &Circles, eta: Fixed, s: Point) -> (r: Result<Point, EstimateError>)
    ensures
        point_view(r) == step_model(circles@, eta@, s@),
        !valid_damping(eta@) <==> r == Err::<Point, EstimateError>(
            EstimateError::ConfigurationError,
        ),
        valid_damping(eta@) && cross(circles@, s@) == 0 <==> r == Err::<Point, EstimateError>(
            EstimateError::SolverDegenerate,
        ),
{
    if eta.raw() <= 0 || eta.raw() > SCALE {
        return Err(EstimateError::ConfigurationError);
    }
    if product(s.y.raw(), circles.centre.x.raw()) == product(s.x.raw(), circles.centre.y.raw()) {
        return Err(EstimateError::SolverDegenerate);
    }
    let f = residuals(circles, s)?;
    newton_update(circles, eta, s, f)
}

/// `iterations` steps from `seed`, each damped by a valid `eta`.
fn fixed_steps(circles: &Circles, iterations: u32, eta: Fixed, seed: Point) -> (r: Result<
    Point,
    EstimateError,
>)
    requires
        valid_damping(eta@),
    ensures
        point_view(r) == iterate_model(circles@, eta@, seed@, iterations as nat),
{
    let mut s = seed;
    let mut done: u32 = 0;
    while done < iterations
        invariant
            done <= iterations,
            valid_damping(eta@),
            iterate_model(circles@, eta@, seed@, iterations as nat) == iterate_model(
                circles@,
                eta@,
                s@,
                (iterations - done) as nat,
            ),
        decreases iterations - done,
    {
        s = newton_step(circles, eta, s)?;
        done = done + 1;
    }
    Ok(s)
}

/// Whether the residuals of `s` are within `epsilon`.
fn is_converged(circles: &Circles, s: Point, epsilon: Fixed) -> (r: bool)
    ensures
        r == converged((residual_first(circles@, s@), residual_second(circles@, s@)), epsilon@),
{
    let x = s.x.raw();
    let y = s.y.raw();
    let r1 = circles.r1.raw();
    let r2 = circles.r2.raw();
    let dx = x - circles.centre.x.raw();
    let dy = y - circles.centre.y.raw();
    let f0 = floor_div_wide(product(x, x) + product(y, y) - product(r1, r1), SCALE as i128);
    let f1 = floor_div_wide(product(dx, dx) + product(dy, dy) - product(r2, r2), SCALE as i128);
    let bound = product(epsilon.raw(), SCALE);
    let limit = LIMIT as i128;
    if f0 < -limit || f0 > limit || f1 < -limit || f1 > limit {
        proof {
            if f0 < -limit || f0 > limit {
                lemma_large_residual_is_not_converged(f0 as int, f1 as int, epsilon@);
            } else {
                lemma_large_residual_is_not_converged(f1 as int, f0 as int, epsilon@);
            }
        }
        false
    } else {
        product(f0 as i64, f0 as i64) + product(f1 as i64, f1 as i64) <= bound
    }
}

/// A residual beyond the limit has a square above every tolerance.
proof fn lemma_large_residual_is_not_converged(large: int, other: int, epsilon: int)
    by (nonlinear_arith)
    requires
        large < -1_000_000_000_000_000 || large > 1_000_000_000_000_000,
        epsilon <= 1_000_000_000_000_000,
    ensures
        large * large + other * other > epsilon * 1_000_000,
        other * other + large * large > epsilon * 1_000_000,
{
}

/// Full steps from the origin until the residuals are within `epsilon`.
fn until_converged(circles: &Circles, epsilon: Fixed, max_iter: u32) -> (r: Result<
    Point,
    EstimateError,
>)
    ensures
        point_view(r) == converge_model(circles@, epsilon@, (0, 0), max_iter as nat),
{
    let full = Fixed::from_raw(SCALE).unwrap();
    let mut s = Point { x: Fixed::zero(), y: Fixed::zero() };
    let mut done: u32 = 0;
    loop
        invariant
            done <= max_iter,
            full@ == SCALE,
            converge_model(circles@, epsilon@, (0, 0), max_iter as nat) == converge_model(
                circles@,
                epsilon@,
                s@,
                (max_iter - done) as nat,
            ),
        decreases max_iter - done,
    {
        if is_converged(circles, s, epsilon) {
            return Ok(s);
        }
        if done == max_iter {
            return Err(EstimateError::NonConvergence);
        }
        s = newton_step(circles, full, s)?;
        done = done + 1;
    }
}

/// Runs the iteration that `policy` describes.
///
/// Under `FixedStep` the result is the seed after `iterations` steps, or the
/// error of the first step that fails; a damping factor outside `(0, 1]` is a
/// `ConfigurationError`. Under `ConvergenceDriven` the result is the first
/// iterate, counted from the origin, whose residuals are within `epsilon`;
/// `NonConvergence` when `max_iter` full steps did not reach one, and the
/// error of the first step that fails.
pub fn newton_raphson(circles: &Circles, policy: &SolverPolicy) -> (r: Result<
    Point,
    EstimateError,
>)
    ensures
        point_view(r) == solve_model(circles@, policy@),
{
    match *policy {
        SolverPolicy::FixedStep { iterations, eta, seed } => {
            if eta.raw() <= 0 || eta.raw() > SCALE {
                Err(EstimateError::ConfigurationError)
            } else {
                fixed_steps(circles, iterations, eta, seed)
            }
        },
        SolverPolicy::ConvergenceDriven { epsilon, max_iter } => until_converged(
            circles,
            epsilon,
            max_iter,
        ),
    }
}

/// A step fails as degenerate exactly when the origin, the second centre
/// and the iterate lie on one line.
pub proof fn law_degenerate_iff_collinear(c: CirclesModel, eta: int, s: (int, int))
    requires
        valid_damping(eta),
    ensures
        step_model(c, eta, s) == Err::<(int, int), EstimateError>(EstimateError::SolverDegenerate)
            <==> collinear((0, 0), (c.x2, c.y2), s),
{
    assert(s.1 * c.x2 == c.x2 * s.1) by (nonlinear_arith);
    assert(s.0 * c.y2 == c.y2 * s.0) by (nonlinear_arith);
}

/// Where both circles have the same centre, every step is degenerate.
pub proof fn law_coincident_centres_are_degenerate(c: CirclesModel, eta: int, s: (int, int))
    requires
        valid_damping(eta),
        c.x2 == 0,
        c.y2 == 0,
    ensures
        step_model(c, eta, s) == Err::<(int, int), EstimateError>(EstimateError::SolverDegenerate),
{
    assert(s.1 * 0 - s.0 * 0 == 0) by (nonlinear_arith);
}

/// A fixed-step run whose seed lies on the line of the two centres fails as
/// degenerate at its first step.
pub proof fn law_seed_on_line_of_centres(
    c: CirclesModel,
    iterations: nat,
    eta: int,
    seed: (int, int),
)
    requires
        valid_damping(eta),
        iterations > 0,
        collinear((0, 0), (c.x2, c.y2), seed),
    ensures
        solve_model(c, PolicyModel::FixedStep { iterations, eta, seed }) == Err::<
            (int, int),
            EstimateError,
        >(EstimateError::SolverDegenerate),
{
    law_degenerate_iff_collinear(c, eta, seed);
}

/// The convergence-driven run starts at the origin, which lies on the line
/// of the two centres: it returns the origin where the origin is within the
/// tolerance, and fails as degenerate at its first step where it is not.
/// With no step allowed it fails as not converged instead.
pub proof fn law_convergence_driven_from_origin(c: CirclesModel, epsilon: int, max_iter: nat)
    ensures
        solve_model(c, PolicyModel::ConvergenceDriven { epsilon, max_iter }) == (if converged(
            (residual_first(c, (0, 0)), residual_second(c, (0, 0))),
            epsilon,
        ) {
            Ok::<(int, int), EstimateError>((0, 0))
        } else if max_iter == 0 {
            Err(EstimateError::NonConvergence)
        } else {
            Err(EstimateError::SolverDegenerate)
        }),
{
    assert(0 * c.x2 - 0 * c.y2 == 0) by (nonlinear_arith);
}

/// Whether the run from `s` reaches a `k`-th iterate, and that iterate lies
/// on the line of the two centres.
pub open spec fn iterate_on_line(c: CirclesModel, eta: int, s: (int, int), k: nat) -> bool {
    iterate_model(c, eta, s, k) matches Ok(t) && cross(c, t) == 0
}

/// A run of `n` steps fails as degenerate exactly when one of its iterates
/// before the `n`-th lies on the line of the two centres.
pub proof fn law_run_is_degenerate_iff_an_iterate_is_on_the_line(
    c: CirclesModel,
    eta: int,
    s: (int, int),
    n: nat,
)
    requires
        valid_damping(eta),
    ensures
        iterate_model(c, eta, s, n) == Err::<(int, int), EstimateError>(
            EstimateError::SolverDegenerate,
        ) <==> exists|k: nat| k < n && #[trigger] iterate_on_line(c, eta, s, k),
    decreases n,
{
    let degenerate = Err::<(int, int), EstimateError>(EstimateError::SolverDegenerate);
    if n > 0 {
        assert(iterate_model(c, eta, s, 0) == Ok::<(int, int), EstimateError>(s));
        match step_model(c, eta, s) {
            Err(e) => {
                if e == EstimateError::SolverDegenerate {
                    assert(iterate_on_line(c, eta, s, 0));
                } else {
                    assert forall|k: nat| k < n implies !#[trigger] iterate_on_line(
                        c,
                        eta,
                        s,
                        k,
                    ) by {
                        if k > 0 {
                            assert(iterate_model(c, eta, s, k) == Err::<(int, int), EstimateError>(e));
                        }
                    }
                }
            },
            Ok(t) => {
                let rest = (n - 1) as nat;
                law_run_is_degenerate_iff_an_iterate_is_on_the_line(c, eta, t, rest);
                assert(iterate_model(c, eta, s, n) == iterate_model(c, eta, t, rest));
                if iterate_model(c, eta, t, rest) == degenerate {
                    let k = choose|k: nat| k < rest && #[trigger] iterate_on_line(c, eta, t, k);
                    assert(iterate_model(c, eta, s, (k + 1) as nat) == iterate_model(c, eta, t, k));
                    assert(iterate_on_line(c, eta, s, (k + 1) as nat));
                }
                assert forall|k: nat| k < n && #[trigger] iterate_on_line(
                    c,
                    eta,
                    s,
                    k,
                ) implies iterate_model(c, eta, t, rest) == degenerate by {
                    if k > 0 {
                        let j = (k - 1) as nat;
                        assert(iterate_model(c, eta, s, k) == iterate_model(c, eta, t, j));
                        assert(iterate_on_line(c, eta, t, j));
                    }
                }
            },
        }
    }
}

/// An iterate off the line of centres at which both residuals vanish is a
/// fixed point: any number of steps leaves it where it is.
pub proof fn law_intersection_is_fixed(c: CirclesModel, eta: int, s: (int, int), n: nat)
    requires
        valid_damping(eta),
        in_range(s.0),
        in_range(s.1),
        cross(c, s) != 0,
        residual_first(c, s) == 0,
        residual_second(c, s) == 0,
    ensures
        iterate_model(c, eta, s, n) == Ok::<(int, int), EstimateError>(s),
    decreases n,
{
    if n > 0 {
        assert((s.1 - c.y2) * 0 - s.1 * 0 == 0) by (nonlinear_arith);
        assert(-(s.0 - c.x2) * 0 + s.0 * 0 == 0) by (nonlinear_arith);
        assert(2 * eta * 0 == 0) by (nonlinear_arith);
        assert(div_floor(0, cross(c, s)) == 0) by (nonlinear_arith)
            requires
                cross(c, s) != 0,
        ;
        assert(step_model(c, eta, s) == Ok::<(int, int), EstimateError>(s));
        law_intersection_is_fixed(c, eta, s, (n - 1) as nat);
    }
}

} // verus!
