//! Points, and the reference frame anchored at the first station.

use crate::error::EstimateError;
use crate::fixed::{in_range, product, Fixed};
use vstd::prelude::*;

verus! {

/// A point of the plane. Its view is the pair of its raw coordinates.
#[derive(Clone, Copy, Debug, PartialEq, Eq, Structural)]
pub struct Point {
    pub x: Fixed,
    pub y: Fixed,
}

impl View for Point {
    type V = (int, int);

    open spec fn view(&self) -> (int, int) {
        (self.x@, self.y@)
    }
}

/// The view of a result that holds a point.
pub open spec fn point_view(r: Result<Point, EstimateError>) -> Result<(int, int), EstimateError> {
    match r {
        Ok(p) => Ok(p@),
        Err(e) => Err(e),
    }
}

/// The frame anchored at the first station, in raw units.
pub struct FrameModel {
    /// The first station, which the frame takes as its origin.
    pub x1: int,
    pub y1: int,
    /// The second station, relative to the first.
    pub x2p: int,
    pub y2p: int,
    /// The third station, relative to the first.
    pub x3p: int,
    pub y3p: int,
    /// The coefficients of the baseline `b * x + a * y = 0`.
    pub a: int,
    pub b: int,
}

/// The three stations in a frame anchored at the first, with the
/// coefficients of the baseline: the line `b * x + a * y = 0`, which passes
/// through the first two stations.
#[derive(Clone, Copy, Debug, PartialEq, Eq, Structural)]
pub struct Frame {
    /// The first station, in the stations' own frame.
    pub origin: Point,
    /// The second station, relative to the first.
    pub second: Point,
    /// The third station, relative to the first.
    pub third: Point,
    /// `x2 - x1`.
    pub a: Fixed,
    /// `y1 - y2`.
    pub b: Fixed,
}

impl View for Frame {
    type V = FrameModel;

    open spec fn view(&self) -> FrameModel {
        FrameModel {
            x1: self.origin.x@,
            y1: self.origin.y@,
            x2p: self.second.x@,
            y2p: self.second.y@,
            x3p: self.third.x@,
            y3p: self.third.y@,
            a: self.a@,
            b: self.b@,
        }
    }
}

/// Whether three points lie on one line (two equal points always do).
pub open spec fn collinear(s1: (int, int), s2: (int, int), s3: (int, int)) -> bool {
    (s2.0 - s1.0) * (s3.1 - s1.1) == (s2.1 - s1.1) * (s3.0 - s1.0)
}

/// The frame of three stations, before any check of range, with
/// `a = x2 - x1` and `b = y1 - y2`.
pub open spec fn frame_model(s1: (int, int), s2: (int, int), s3: (int, int)) -> FrameModel {
    FrameModel {
        x1: s1.0,
        y1: s1.1,
        x2p: s2.0 - s1.0,
        y2p: s2.1 - s1.1,
        x3p: s3.0 - s1.0,
        y3p: s3.1 - s1.1,
        a: s2.0 - s1.0,
        b: s1.1 - s2.1,
    }
}

/// Whether both translated stations fit into a [`Fixed`].
pub open spec fn frame_in_range(f: FrameModel) -> bool {
    &&& in_range(f.x2p)
    &&& in_range(f.y2p)
    &&& in_range(f.x3p)
    &&& in_range(f.y3p)
}

/// `b * x + a * y` at the point `p` of the frame, in squared raw units: zero
/// on the baseline, and of opposite signs on its two sides.
pub open spec fn line_value(f: FrameModel, p: (int, int)) -> int {
    f.b * p.0 + f.a * p.1
}

/// `x1 * y2 - y1 * x2`: the constant term of the baseline where it is written
/// in the stations' own coordinates, `b * x + a * y + c = 0`.
pub open spec fn baseline_constant(s1: (int, int), s2: (int, int)) -> int {
    s1.0 * s2.1 - s1.1 * s2.0
}

/// What the transform returns for three stations.
pub open spec fn reference_frame_model(s1: (int, int), s2: (int, int), s3: (int, int)) -> Result<
    FrameModel,
    EstimateError,
> {
    if collinear(s1, s2, s3) {
        Err(EstimateError::ConfigurationError)
    } else if !frame_in_range(frame_model(s1, s2, s3)) {
        Err(EstimateError::OutOfRange)
    } else {
        Ok(frame_model(s1, s2, s3))
    }
}

/// The view of a result that holds a frame.
pub open spec fn frame_view(r: Result<Frame, EstimateError>) -> Result<FrameModel, EstimateError> {
    match r {
        Ok(f) => Ok(f@),
        Err(e) => Err(e),
    }
}

/// Translates the stations into the frame anchored at `s1` and computes the
/// baseline coefficients.
///
/// Fails with `ConfigurationError` exactly when the stations lie on one line,
/// and otherwise with `OutOfRange` exactly when a translated station does not
/// fit.
pub fn reference_frame(s1: Point, s2: Point, s3: Point) -> (r: Result<Frame, EstimateError>)
    ensures
        frame_view(r) == reference_frame_model(s1@, s2@, s3@),
        collinear(s1@, s2@, s3@) <==> r == Err::<Frame, EstimateError>(
            EstimateError::ConfigurationError,
        ),
        !collinear(s1@, s2@, s3@) && !frame_in_range(frame_model(s1@, s2@, s3@)) <==> r == Err::<
            Frame,
            EstimateError,
        >(EstimateError::OutOfRange),
        r matches Ok(f) ==> f@ == frame_model(s1@, s2@, s3@),
{
    let x1 = s1.x.raw();
    let y1 = s1.y.raw();
    let x2 = s2.x.raw();
    let y2 = s2.y.raw();
    let x3 = s3.x.raw();
    let y3 = s3.y.raw();
    let dx2 = x2 - x1;
    let dy2 = y2 - y1;
    let dx3 = x3 - x1;
    let dy3 = y3 - y1;
    if product(dx2, dy3) == product(dy2, dx3) {
        return Err(EstimateError::ConfigurationError);
    }
    let second = Point { x: Fixed::narrow(dx2 as i128)?, y: Fixed::narrow(dy2 as i128)? };
    let third = Point { x: Fixed::narrow(dx3 as i128)?, y: Fixed::narrow(dy3 as i128)? };
    let a = second.x;
    let b = Fixed::narrow((y1 - y2) as i128)?;
    Ok(Frame { origin: s1, second, third, a, b })
}

/// The baseline of a frame passes through the first two stations. In the
/// stations' own coordinates it is the line `b * x + a * y + c = 0` with
/// `c = x1 * y2 - y1 * x2`.
pub proof fn law_baseline_passes_through_stations(
    s1: (int, int),
    s2: (int, int),
    s3: (int, int),
    p: (int, int),
)
    ensures
        ({
            let f = frame_model(s1, s2, s3);
            &&& line_value(f, (0, 0)) == 0
            &&& line_value(f, (f.x2p, f.y2p)) == 0
            &&& line_value(f, (p.0 - s1.0, p.1 - s1.1)) == f.b * p.0 + f.a * p.1 + baseline_constant(
                s1,
                s2,
            )
        }),
{
    let f = frame_model(s1, s2, s3);
    let a = s2.0 - s1.0;
    let b = s1.1 - s2.1;
    assert(b * 0 + a * 0 == 0) by (nonlinear_arith);
    assert(b * a + a * (-b) == 0) by (nonlinear_arith);
    assert(b * (p.0 - s1.0) + a * (p.1 - s1.1) == b * p.0 + a * p.1 + (s1.0 * s2.1 - s1.1 * s2.0))
        by (nonlinear_arith)
        requires
            a == s2.0 - s1.0,
            b == s1.1 - s2.1,
    ;
}

} // verus!
