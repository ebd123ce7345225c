//! Signed decimal fixed-point numbers with six fractional digits.
//!
//! Every quantity of this crate (coordinates, distances, signal strengths,
//! tolerances) is a [`Fixed`]: an integer count of millionths. Products and
//! quotients are formed exactly in 128 bits and rounded down once, when they
//! are stored back.

use crate::error::EstimateError;
use vstd::prelude::*;

verus! {

/// Number of raw units in one whole unit.
pub const SCALE: i64 = 1_000_000;

/// Largest magnitude, in raw units, that a [`Fixed`] can hold.
pub const LIMIT: i64 = 1_000_000_000_000_000;

/// The square of [`LIMIT`]: the largest magnitude of a product of two numbers.
pub const LIMIT_SQUARED: i128 = 1_000_000_000_000_000_000_000_000_000_000;

/// Whether `v` raw units fit into a [`Fixed`].
pub open spec fn in_range(v: int) -> bool {
    -LIMIT <= v <= LIMIT
}

/// Floor of the rational `n / d`, for a non-zero `d` of either sign.
pub open spec fn div_floor(n: int, d: int) -> int
    recommends
        d != 0,
{
    if d > 0 {
        n / d
    } else {
        (-n) / (-d)
    }
}

/// The absolute value of `v`.
pub open spec fn magnitude(v: int) -> int {
    if v < 0 {
        -v
    } else {
        v
    }
}

/// A decimal number `raw / SCALE` with `|raw| <= LIMIT`. Its view is `raw`.
#[derive(Clone, Copy, Debug, PartialEq, Eq, Structural)]
pub struct Fixed {
    raw: i64,
}

impl View for Fixed {
    type V = int;

    closed spec fn view(&self) -> int {
        self.raw as int
    }
}

impl Fixed {
    #[verifier::type_invariant]
    spec fn bounded(self) -> bool {
        in_range(self.raw as int)
    }

    /// The number of `raw` millionths, if that is within the limit.
    pub fn from_raw(raw: i64) -> (r: Option<Fixed>)
        ensures
            r is Some <==> in_range(raw as int),
            r matches Some(f) ==> f@ == raw,
    {
        if -LIMIT <= raw && raw <= LIMIT {
            Some(Fixed { raw })
        } else {
            None
        }
    }

    /// Zero.
    pub fn zero() -> (r: Fixed)
        ensures
            r@ == 0,
    {
        Fixed { raw: 0 }
    }

    /// The value in millionths.
    pub fn raw(self) -> (r: i64)
        ensures
            r == self@,
            in_range(r as int),
    {
        proof {
            use_type_invariant(&self);
        }
        self.raw
    }

    /// The value in millionths, widened for exact products.
    pub(crate) fn wide(self) -> (r: i128)
        ensures
            r == self@,
            in_range(r as int),
    {
        proof {
            use_type_invariant(&self);
        }
        self.raw as i128
    }

    /// A number is determined by its view.
    pub proof fn lemma_view_determines(a: Fixed, b: Fixed)
        requires
            a@ == b@,
        ensures
            a == b,
    {
    }

    /// Stores an exact intermediate value, if it is within the limit.
    pub(crate) fn narrow(v: i128) -> (r: Result<Fixed, EstimateError>)
        ensures
            r is Ok <==> in_range(v as int),
            r matches Ok(f) ==> f@ == v,
            r matches Err(e) ==> e == EstimateError::OutOfRange,
    {
        if -(LIMIT as i128) <= v && v <= LIMIT as i128 {
            Ok(Fixed { raw: v as i64 })
        } else {
            Err(EstimateError::OutOfRange)
        }
    }
}

/// The floor of `n / d` in 128 bits.
pub(crate) fn floor_div_wide(n: i128, d: i128) -> (q: i128)
    requires
        d != 0,
        -i128::MAX <= n <= i128::MAX,
        -i128::MAX <= d,
    ensures
        q == div_floor(n as int, d as int),
        magnitude(q as int) <= magnitude(n as int),
{
    if d > 0 {
        proof {
            lemma_floor_div_bounds(n as int, d as int);
        }
        n.checked_div_euclid(d).unwrap()
    } else {
        proof {
            lemma_floor_div_bounds(-(n as int), -(d as int));
        }
        (-n).checked_div_euclid(-d).unwrap()
    }
}

/// The exact product of two values that are sums of at most two numbers.
pub(crate) fn product(a: i64, b: i64) -> (r: i128)
    requires
        magnitude(a as int) <= 2 * LIMIT,
        magnitude(b as int) <= 2 * LIMIT,
    ensures
        r == (a as int) * (b as int),
        magnitude(r as int) <= 4 * LIMIT_SQUARED,
        in_range(a as int) ==> magnitude(r as int) <= 2 * LIMIT_SQUARED,
        in_range(b as int) ==> magnitude(r as int) <= 2 * LIMIT_SQUARED,
        in_range(a as int) && in_range(b as int) ==> magnitude(r as int) <= LIMIT_SQUARED,
{
    proof {
        let one: int = 1_000_000_000_000_000;
        let two: int = 2_000_000_000_000_000;
        lemma_product_bound(a as int, b as int, two, two);
        if in_range(a as int) {
            lemma_product_bound(a as int, b as int, one, two);
        }
        if in_range(b as int) {
            lemma_product_bound(a as int, b as int, two, one);
        }
        if in_range(a as int) && in_range(b as int) {
            lemma_product_bound(a as int, b as int, one, one);
        }
    }
    (a as i128) * (b as i128)
}

/// The floor of a quotient by a positive divisor lies between zero and the dividend.
pub(crate) proof fn lemma_floor_div_bounds(n: int, d: int)
    by (nonlinear_arith)
    requires
        d > 0,
    ensures
        n >= 0 ==> 0 <= n / d <= n,
        n < 0 ==> n <= n / d < 0,
{
}

/// A product is bounded by the product of the bounds of its factors.
pub(crate) proof fn lemma_product_bound(a: int, b: int, bound_a: int, bound_b: int)
    by (nonlinear_arith)
    requires
        -bound_a <= a <= bound_a,
        -bound_b <= b <= bound_b,
    ensures
        -(bound_a * bound_b) <= a * b <= bound_a * bound_b,
{
}

} // verus!
