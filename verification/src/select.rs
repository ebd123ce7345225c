//! Choice between a solver candidate and its mirror image in the baseline,
//! by the distance to the third station.

use crate::error::EstimateError;
use crate::fixed::{
    div_floor, floor_div_wide, in_range, magnitude, product, Fixed, LIMIT, LIMIT_SQUARED, SCALE,
};
use crate::frame::{line_value, Frame, FrameModel, Point};
use vstd::arithmetic::div_mod::{lemma_fundamental_div_mod, lemma_mod_bound};
use vstd::prelude::*;

verus! {

/// Which of the three outcomes the selector took.
#[derive(Clone, Copy, Debug, PartialEq, Eq, Structural)]
pub enum Branch {
    /// The candidate is at the third distance from the third station, and
    /// is kept.
    Accepted,
    /// The candidate was mirrored; the foot of its perpendicular lies on the
    /// baseline within the tolerance.
    OnBaseline,
    /// The candidate was mirrored; rounding left the foot of its
    /// perpendicular off the baseline by the tolerance or more.
    Reflected,
}

/// A position in the stations' own frame, with the branch that produced it.
#[derive(Clone, Copy, Debug, PartialEq, Eq, Structural)]
pub struct Selection {
    pub branch: Branch,
    pub position: Point,
}

impl View for Selection {
    type V = (Branch, (int, int));

    open spec fn view(&self) -> (Branch, (int, int)) {
        (self.branch, self.position@)
    }
}

/// The view of a result that holds a selection.
pub open spec fn selection_view(r: Result<Selection, EstimateError>) -> Result<
    (Branch, (int, int)),
    EstimateError,
> {
    match r {
        Ok(s) => Ok(s@),
        Err(e) => Err(e),
    }
}

/// `a * a + b * b`, which is zero only for a baseline without direction.
pub open spec fn baseline_norm(f: FrameModel) -> int {
    f.a * f.a + f.b * f.b
}

/// The squared distance from `q` to the third station less the square of
/// `r3`, in squared raw units.
pub open spec fn distance_error(f: FrameModel, q: (int, int), r3: int) -> int {
    (q.0 - f.x3p) * (q.0 - f.x3p) + (q.1 - f.y3p) * (q.1 - f.y3p) - r3 * r3
}

/// Whether `v` squared raw units are below the tolerance `eps` in absolute value.
pub open spec fn within(v: int, eps: int) -> bool {
    magnitude(v) < eps * SCALE
}

/// The ratio `d = (b * x + a * y) / (a * a + b * b)`, rounded down: the
/// signed distance of `q` from the baseline, over the length of `(b, a)`.
pub open spec fn offset_ratio(f: FrameModel, q: (int, int)) -> int {
    div_floor(line_value(f, q) * SCALE, baseline_norm(f))
}

/// The offsets `(d * b, d * a)`, each rounded down: the step from the
/// baseline to `q`.
pub open spec fn offsets(f: FrameModel, q: (int, int)) -> (int, int) {
    let d = offset_ratio(f, q);
    ((d * f.b) / (SCALE as int), (d * f.a) / (SCALE as int))
}

/// The foot of the perpendicular from `q` to the baseline:
/// `(x - d * b, y - d * a)`.
pub open spec fn projection(f: FrameModel, q: (int, int)) -> (int, int) {
    (q.0 - offsets(f, q).0, q.1 - offsets(f, q).1)
}

/// The mirror image of `q` in the baseline as the selector computes it:
/// `(x - 2 * d * b, y - 2 * d * a)`.
pub open spec fn mirror_image(f: FrameModel, q: (int, int)) -> (int, int) {
    (q.0 - 2 * offsets(f, q).0, q.1 - 2 * offsets(f, q).1)
}

/// Whether the ratio and both offsets fit into a [`Fixed`].
pub open spec fn offsets_in_range(f: FrameModel, q: (int, int)) -> bool {
    &&& in_range(offset_ratio(f, q))
    &&& in_range(offsets(f, q).0)
    &&& in_range(offsets(f, q).1)
}

/// The branch that the selector takes where it gets that far.
pub open spec fn branch_of(f: FrameModel, q: (int, int), r3: int, eps: int) -> Branch {
    if within(distance_error(f, q, r3), eps) {
        Branch::Accepted
    } else if within(line_value(f, projection(f, q)), eps) {
        Branch::OnBaseline
    } else {
        Branch::Reflected
    }
}

/// The point of a branch, still in the frame of the first station: the
/// candidate where it is accepted, and its mirror image where it is not.
pub open spec fn branch_point(f: FrameModel, q: (int, int), branch: Branch) -> (int, int) {
    match branch {
        Branch::Accepted => q,
        Branch::OnBaseline => mirror_image(f, q),
        Branch::Reflected => mirror_image(f, q),
    }
}

/// What the selector returns for the candidate `q`.
pub open spec fn select_model(f: FrameModel, q: (int, int), r3: int, eps: int) -> Result<
    (Branch, (int, int)),
    EstimateError,
> {
    let branch = branch_of(f, q, r3, eps);
    let p = branch_point(f, q, branch);
    if baseline_norm(f) == 0 {
        Err(EstimateError::ConfigurationError)
    } else if branch != Branch::Accepted && !offsets_in_range(f, q) {
        Err(EstimateError::OutOfRange)
    } else if !in_range(p.0 + f.x1) || !in_range(p.1 + f.y1) {
        Err(EstimateError::OutOfRange)
    } else {
        Ok((branch, (p.0 + f.x1, p.1 + f.y1)))
    }
}

/// The exact mirror image of `q` in the baseline, with both coordinates
/// multiplied by `a * a + b * b`.
pub open spec fn mirror_scaled(f: FrameModel, q: (int, int)) -> (int, int) {
    let n = baseline_norm(f);
    (q.0 * n - 2 * line_value(f, q) * f.b, q.1 * n - 2 * line_value(f, q) * f.a)
}

/// Whether the point `p` of the frame is the mirror image of `q` up to
/// rounding: each coordinate is off the exact image by less than
/// `2 * (|b| + 1)` and `2 * (|a| + 1)` millionths, with `a` and `b` taken in
/// whole units.
pub open spec fn near_mirror(f: FrameModel, q: (int, int), p: (int, int)) -> bool {
    let n = baseline_norm(f);
    let m = mirror_scaled(f, q);
    &&& SCALE * magnitude(p.0 * n - m.0) < 2 * n * (magnitude(f.b) + SCALE)
    &&& SCALE * magnitude(p.1 * n - m.1) < 2 * n * (magnitude(f.a) + SCALE)
}

/// One offset is within rounding of its exact value: with `d` the floor of
/// `l * SCALE / n` and `o` the floor of `d * k / SCALE`, `o * n` is off
/// `l * k` by less than `n * (|k| + SCALE) / SCALE`.
proof fn lemma_offset_is_close(l: int, n: int, k: int)
    requires
        n > 0,
    ensures
        ({
            let d = (l * SCALE) / n;
            let o = (d * k) / (SCALE as int);
            SCALE * magnitude(l * k - o * n) < n * (magnitude(k) + SCALE)
        }),
{
    let s = SCALE as int;
    let d = (l * s) / n;
    let o = (d * k) / s;
    let r1 = (l * s) % n;
    let r2 = (d * k) % s;
    lemma_fundamental_div_mod(l * s, n);
    lemma_mod_bound(l * s, n);
    lemma_fundamental_div_mod(d * k, s);
    lemma_mod_bound(d * k, s);
    assert(s * (l * k - o * n) == r1 * k + r2 * n) by (nonlinear_arith)
        requires
            l * s == n * d + r1,
            d * k == s * o + r2,
    ;
    assert(magnitude(r1 * k + r2 * n) < n * (magnitude(k) + s)) by (nonlinear_arith)
        requires
            n > 0,
            s > 0,
            0 <= r1 < n,
            0 <= r2 < s,
    ;
    assert(s * magnitude(l * k - o * n) == magnitude(s * (l * k - o * n))) by (nonlinear_arith)
        requires
            s > 0,
    ;
}

/// The mirror image that the selector computes is the exact one up to
/// rounding.
pub proof fn law_mirror_image_is_near_mirror(f: FrameModel, q: (int, int))
    requires
        baseline_norm(f) != 0,
    ensures
        near_mirror(f, q, mirror_image(f, q)),
{
    let n = baseline_norm(f);
    let l = line_value(f, q);
    let (dx, dy) = offsets(f, q);
    assert(n > 0) by (nonlinear_arith)
        requires
            n == f.a * f.a + f.b * f.b,
            n != 0,
    ;
    lemma_offset_is_close(l, n, f.b);
    lemma_offset_is_close(l, n, f.a);
    let ex = l * f.b - dx * n;
    let ey = l * f.a - dy * n;
    assert(SCALE * magnitude(ex) < n * (magnitude(f.b) + SCALE));
    assert(SCALE * magnitude(ey) < n * (magnitude(f.a) + SCALE));
    assert((q.0 - 2 * dx) * n - (q.0 * n - 2 * l * f.b) == 2 * ex) by (nonlinear_arith)
        requires
            ex == l * f.b - dx * n,
    ;
    assert((q.1 - 2 * dy) * n - (q.1 * n - 2 * l * f.a) == 2 * ey) by (nonlinear_arith)
        requires
            ey == l * f.a - dy * n,
    ;
    assert(magnitude(2 * ex) == 2 * magnitude(ex));
    assert(magnitude(2 * ey) == 2 * magnitude(ey));
    assert(SCALE * (2 * magnitude(ex)) == 2 * (SCALE * magnitude(ex))) by (nonlinear_arith);
    assert(SCALE * (2 * magnitude(ey)) == 2 * (SCALE * magnitude(ey))) by (nonlinear_arith);
    assert(2 * (n * (magnitude(f.b) + SCALE)) == 2 * n * (magnitude(f.b) + SCALE))
        by (nonlinear_arith);
    assert(2 * (n * (magnitude(f.a) + SCALE)) == 2 * n * (magnitude(f.a) + SCALE))
        by (nonlinear_arith);
}

/// Moves a point of the frame back by the first station.
fn translate_back(frame: &Frame, branch: Branch, x: i128, y: i128) -> (r: Result<
    Selection,
    EstimateError,
>)
    requires
        magnitude(x as int) <= 4 * LIMIT,
        magnitude(y as int) <= 4 * LIMIT,
    ensures
        r is Ok <==> in_range(x + frame@.x1) && in_range(y + frame@.y1),
        r matches Ok(s) ==> s@ == (branch, (x + frame@.x1, y + frame@.y1)),
        r matches Err(e) ==> e == EstimateError::OutOfRange,
{
    let px = Fixed::narrow(x + frame.origin.x.wide())?;
    let py = Fixed::narrow(y + frame.origin.y.wide())?;
    Ok(Selection { branch, position: Point { x: px, y: py } })
}

/// Whether `|v| < eps`, for `v` in squared raw units.
fn is_within(v: i128, eps: Fixed) -> (r: bool)
    requires
        magnitude(v as int) <= 16 * LIMIT_SQUARED,
    ensures
        r == within(v as int, eps@),
{
    let bound = product(eps.raw(), SCALE);
    if v < 0 {
        -v < bound
    } else {
        v < bound
    }
}

/// Decides between the candidate and its mirror image in the baseline.
///
/// The candidate is returned as it is when the square of its distance to the
/// third station differs from the square of `r3` by less than `eps`, in
/// absolute value. Otherwise its mirror image `(x - 2 * d * b, y - 2 * d * a)`
/// is returned, with `d = (b * x + a * y) / (a * a + b * b)`; the branch then
/// tells whether the foot of the perpendicular, `(x - d * b, y - d * a)`, is
/// within `eps` of the baseline. Every result is moved back by the first
/// station.
///
/// Fails with `ConfigurationError` exactly when `a` and `b` are both zero,
/// and otherwise with `OutOfRange` exactly when a quantity of the branch
/// taken does not fit.
pub fn disambiguate(frame: &Frame, candidate: Point, r3: Fixed, eps: Fixed) -> (r: Result<
    Selection,
    EstimateError,
>)
    ensures
        selection_view(r) == select_model(frame@, candidate@, r3@, eps@),
        baseline_norm(frame@) == 0 <==> r == Err::<Selection, EstimateError>(
            EstimateError::ConfigurationError,
        ),
        r matches Ok(s) ==> s.branch == branch_of(frame@, candidate@, r3@, eps@),
        r matches Ok(s) ==> (s.branch == Branch::Accepted <==> within(
            distance_error(frame@, candidate@, r3@),
            eps@,
        )),
        r matches Ok(s) ==> (s.branch == Branch::Accepted ==> s.position@ == (
            candidate@.0 + frame@.x1,
            candidate@.1 + frame@.y1,
        )),
        r matches Ok(s) ==> (s.branch != Branch::Accepted ==> near_mirror(
            frame@,
            candidate@,
            (s.position@.0 - frame@.x1, s.position@.1 - frame@.y1),
        )),
{
    let a = frame.a.raw();
    let b = frame.b.raw();
    let x = candidate.x.raw();
    let y = candidate.y.raw();
    let norm = product(a, a) + product(b, b);
    if norm == 0 {
        return Err(EstimateError::ConfigurationError);
    }
    let a0 = x - frame.third.x.raw();
    let a1 = y - frame.third.y.raw();
    let error = product(a0, a0) + product(a1, a1) - product(r3.raw(), r3.raw());
    if is_within(error, eps) {
        return translate_back(frame, Branch::Accepted, x as i128, y as i128);
    }
    proof {
        law_mirror_image_is_near_mirror(frame@, candidate@);
    }
    let line = product(b, x) + product(a, y);
    let d = Fixed::narrow(floor_div_wide(line * (SCALE as i128), norm))?.raw();
    let dnx = Fixed::narrow(floor_div_wide(product(d, b), SCALE as i128))?.raw();
    let dny = Fixed::narrow(floor_div_wide(product(d, a), SCALE as i128))?.raw();
    let xp = x - dnx;
    let yp = y - dny;
    let on_line = product(b, xp) + product(a, yp);
    if is_within(on_line, eps) {
        translate_back(frame, Branch::OnBaseline, (xp - dnx) as i128, (yp - dny) as i128)
    } else {
        translate_back(frame, Branch::Reflected, (x - 2 * dnx) as i128, (y - 2 * dny) as i128)
    }
}

/// `mirror_scaled` is the reflection in the baseline: the point midway
/// between `q` and its image lies on the baseline, and the step from `q` to
/// its image is at right angles to the baseline's direction `(a, -b)`.
pub proof fn law_mirror_is_reflection(f: FrameModel, q: (int, int))
    ensures
        ({
            let n = baseline_norm(f);
            let m = mirror_scaled(f, q);
            &&& line_value(f, (q.0 * n + m.0, q.1 * n + m.1)) == 0
            &&& (m.0 - q.0 * n) * f.a - (m.1 - q.1 * n) * f.b == 0
        }),
{
    let n = baseline_norm(f);
    let l = line_value(f, q);
    let a = f.a;
    let b = f.b;
    let lb = l * b;
    let la = l * a;
    assert(b * (q.0 * n + (q.0 * n - 2 * l * b)) == 2 * ((b * q.0) * n) - 2 * (lb * b))
        by (nonlinear_arith)
        requires
            lb == l * b,
    ;
    assert(a * (q.1 * n + (q.1 * n - 2 * l * a)) == 2 * ((a * q.1) * n) - 2 * (la * a))
        by (nonlinear_arith)
        requires
            la == l * a,
    ;
    assert((b * q.0) * n + (a * q.1) * n == l * n) by (nonlinear_arith)
        requires
            l == b * q.0 + a * q.1,
    ;
    assert(lb * b + la * a == l * n) by (nonlinear_arith)
        requires
            lb == l * b,
            la == l * a,
            n == a * a + b * b,
    ;
    assert((-(2 * l * b)) * a - (-(2 * l * a)) * b == 0) by (nonlinear_arith);
}

/// The square of a sum and of a difference.
proof fn lemma_square_of_sum(a: int, b: int)
    by (nonlinear_arith)
    ensures
        (a + b) * (a + b) == a * a + 2 * (a * b) + b * b,
        (a - b) * (a - b) == a * a - 2 * (a * b) + b * b,
{
}

/// The squared distance from a point `t` to the mirror image of `q`, both
/// scaled by `a * a + b * b`.
pub open spec fn mirror_distance_squared(f: FrameModel, q: (int, int), t: (int, int)) -> int {
    let n = baseline_norm(f);
    let m = mirror_scaled(f, q);
    (m.0 - t.0 * n) * (m.0 - t.0 * n) + (m.1 - t.1 * n) * (m.1 - t.1 * n)
}

/// The squared distance from `t` to `q`.
pub open spec fn distance_squared(q: (int, int), t: (int, int)) -> int {
    (q.0 - t.0) * (q.0 - t.0) + (q.1 - t.1) * (q.1 - t.1)
}

/// A point `t` is as far from the mirror image of `q` as from `q` itself,
/// but for four times the product of the values of the baseline at `q` and
/// at `t`, over `a * a + b * b`. Points on the baseline are equally far from
/// both.
pub proof fn law_mirror_distance(f: FrameModel, q: (int, int), t: (int, int))
    ensures
        mirror_distance_squared(f, q, t) == baseline_norm(f) * (distance_squared(q, t)
            * baseline_norm(f) + 4 * (line_value(f, q) * line_value(f, t))),
        line_value(f, t) == 0 ==> mirror_distance_squared(f, q, t) == distance_squared(q, t) * (
        baseline_norm(f) * baseline_norm(f)),
{
    let n = baseline_norm(f);
    let l = line_value(f, q);
    let lt = line_value(f, t);
    let u = q.0 - t.0;
    let v = q.1 - t.1;
    let a = f.a;
    let b = f.b;
    let un = u * n;
    let vn = v * n;
    let lb = 2 * l * b;
    let la = 2 * l * a;
    let ln = l * n;
    let ll = l * l;
    assert(q.0 * n - 2 * l * b - t.0 * n == un - lb) by (nonlinear_arith)
        requires
            un == (q.0 - t.0) * n,
            lb == 2 * l * b,
    ;
    assert(q.1 * n - 2 * l * a - t.1 * n == vn - la) by (nonlinear_arith)
        requires
            vn == (q.1 - t.1) * n,
            la == 2 * l * a,
    ;
    lemma_square_of_sum(un, lb);
    lemma_square_of_sum(vn, la);
    assert(un * un == (u * u) * (n * n)) by (nonlinear_arith)
        requires
            un == u * n,
    ;
    assert(vn * vn == (v * v) * (n * n)) by (nonlinear_arith)
        requires
            vn == v * n,
    ;
    assert(un * lb == 2 * (ln * (u * b))) by (nonlinear_arith)
        requires
            un == u * n,
            lb == 2 * l * b,
            ln == l * n,
    ;
    assert(vn * la == 2 * (ln * (v * a))) by (nonlinear_arith)
        requires
            vn == v * n,
            la == 2 * l * a,
            ln == l * n,
    ;
    assert(lb * lb + la * la == 4 * (ll * n)) by (nonlinear_arith)
        requires
            lb == 2 * l * b,
            la == 2 * l * a,
            ll == l * l,
            n == a * a + b * b,
    ;
    assert(u * b + v * a == l - lt) by (nonlinear_arith)
        requires
            u == q.0 - t.0,
            v == q.1 - t.1,
            l == b * q.0 + a * q.1,
            lt == b * t.0 + a * t.1,
    ;
    assert(ln * (u * b) + ln * (v * a) == ln * (l - lt)) by (nonlinear_arith)
        requires
            u * b + v * a == l - lt,
    ;
    assert(ln * (l - lt) == ll * n - n * (l * lt)) by (nonlinear_arith)
        requires
            ln == l * n,
            ll == l * l,
    ;
    assert((u * u) * (n * n) + (v * v) * (n * n) + 4 * (n * (l * lt)) == n * ((u * u + v * v) * n
        + 4 * (l * lt))) by (nonlinear_arith);
    if lt == 0 {
        assert(l * 0 == 0) by (nonlinear_arith);
        assert(n * ((u * u + v * v) * n + 4 * 0) == (u * u + v * v) * (n * n)) by (nonlinear_arith);
    }
}

/// How far the square of `r3` is from the squared distance between the third
/// station and the mirror image of `q`, both scaled by the square of
/// `a * a + b * b`.
pub open spec fn mirror_mismatch(f: FrameModel, q: (int, int), r3: int) -> int {
    let n = baseline_norm(f);
    r3 * r3 * (n * n) - mirror_distance_squared(f, q, (f.x3p, f.y3p))
}

/// The selector leaves the candidate's own branch exactly when the squared
/// distances from the third station to the candidate and to its mirror
/// image differ by the tolerance or more, once the latter is corrected by
/// how far the square of `r3` is off it.
pub proof fn law_mirror_distance_decides_branch(f: FrameModel, q: (int, int), r3: int, eps: int)
    requires
        baseline_norm(f) != 0,
    ensures
        branch_of(f, q, r3, eps) != Branch::Accepted <==> magnitude(
            4 * (line_value(f, q) * line_value(f, (f.x3p, f.y3p))) * baseline_norm(f)
                + mirror_mismatch(f, q, r3),
        ) >= eps * SCALE * (baseline_norm(f) * baseline_norm(f)),
{
    let n = baseline_norm(f);
    let e = distance_error(f, q, r3);
    let w = line_value(f, q) * line_value(f, (f.x3p, f.y3p));
    let m = mirror_mismatch(f, q, r3);
    let g = distance_squared(q, (f.x3p, f.y3p));
    let bound = eps * SCALE;
    let nn = n * n;
    law_mirror_distance(f, q, (f.x3p, f.y3p));
    assert(n > 0) by (nonlinear_arith)
        requires
            n == f.a * f.a + f.b * f.b,
            n != 0,
    ;
    assert(nn > 0) by (nonlinear_arith)
        requires
            n > 0,
            nn == n * n,
    ;
    assert(e * nn == -(4 * w * n + m)) by (nonlinear_arith)
        requires
            nn == n * n,
            e == g - r3 * r3,
            m == r3 * r3 * (n * n) - n * (g * n + 4 * w),
    ;
    assert(magnitude(e) >= bound <==> magnitude(4 * w * n + m) >= bound * nn) by (nonlinear_arith)
        requires
            nn > 0,
            e * nn == -(4 * w * n + m),
    ;
}

/// Where the third distance belongs to the mirror image of the candidate,
/// the selector takes another branch than the candidate's own.
///
/// `slack` bounds how far the square of `r3` may be from the squared
/// distance between the third station and the mirror image. The candidate
/// and the third station must be far enough from the baseline for the two
/// images to differ by the tolerance and the slack together.
pub proof fn law_mirror_distance_selects_other_branch(
    f: FrameModel,
    q: (int, int),
    r3: int,
    eps: int,
    slack: int,
)
    requires
        baseline_norm(f) != 0,
        0 <= slack,
        magnitude(mirror_mismatch(f, q, r3)) <= slack * (baseline_norm(f) * baseline_norm(f)),
        4 * magnitude(line_value(f, q) * line_value(f, (f.x3p, f.y3p))) >= (eps * SCALE + slack)
            * baseline_norm(f),
    ensures
        branch_of(f, q, r3, eps) != Branch::Accepted,
{
    let n = baseline_norm(f);
    let w = line_value(f, q) * line_value(f, (f.x3p, f.y3p));
    let m = mirror_mismatch(f, q, r3);
    let bound = eps * SCALE;
    law_mirror_distance_decides_branch(f, q, r3, eps);
    assert(n > 0) by (nonlinear_arith)
        requires
            n == f.a * f.a + f.b * f.b,
            n != 0,
    ;
    assert(magnitude(4 * w * n + m) >= bound * (n * n)) by (nonlinear_arith)
        requires
            n > 0,
            0 <= slack,
            magnitude(m) <= slack * (n * n),
            4 * magnitude(w) >= (bound + slack) * n,
    ;
}

/// A candidate whose distance to the third station agrees with `r3` within
/// the tolerance is returned as it is, moved back by the first station.
pub proof fn law_consistent_candidate_is_kept(f: FrameModel, q: (int, int), r3: int, eps: int)
    requires
        baseline_norm(f) != 0,
        within(distance_error(f, q, r3), eps),
        in_range(q.0 + f.x1),
        in_range(q.1 + f.y1),
    ensures
        select_model(f, q, r3, eps) == Ok::<(Branch, (int, int)), EstimateError>(
            (Branch::Accepted, (q.0 + f.x1, q.1 + f.y1)),
        ),
{
}

/// A candidate whose distance to the third station does not agree with `r3`
/// is replaced by its mirror image in the baseline, up to rounding.
pub proof fn law_rejected_candidate_is_mirrored(f: FrameModel, q: (int, int), r3: int, eps: int)
    requires
        baseline_norm(f) != 0,
        !within(distance_error(f, q, r3), eps),
    ensures
        select_model(f, q, r3, eps) matches Ok(s) ==> s.0 != Branch::Accepted && near_mirror(
            f,
            q,
            (s.1.0 - f.x1, s.1.1 - f.y1),
        ),
{
    law_mirror_image_is_near_mirror(f, q);
}

} // verus!
