//! Plain two-component integer vector used for positions, velocities and
//! displacements, in milli-units.
//!
//! The mathematical view of a vector is the pair of its components as
//! unbounded integers, and all geometric spec functions (dot product,
//! squared norm) are stated over such pairs.

use vstd::prelude::*;

verus! {

/// Largest component magnitude accepted by the arithmetic helpers here;
/// far above anything the controller produces, it merely keeps every
/// intermediate product inside `i128`.
pub const COMP_LIMIT: i64 = 100_000_000_000_000_000;

#[derive(Clone, Copy, Debug, Hash, PartialEq, Eq, Structural)]
pub struct Vector2 {
    pub x: i64,
    pub y: i64,
}

impl View for Vector2 {
    type V = (int, int);

    open spec fn view(&self) -> (int, int) {
        (self.x as int, self.y as int)
    }
}

/// Both components lie in `[-b, b]`.
pub open spec fn bounded_pair(v: (int, int), b: int) -> bool {
    -b <= v.0 <= b && -b <= v.1 <= b
}

pub open spec fn dot_pair(a: (int, int), b: (int, int)) -> int {
    a.0 * b.0 + a.1 * b.1
}

pub open spec fn norm_sq_pair(v: (int, int)) -> int {
    dot_pair(v, v)
}

pub open spec fn add_pair(a: (int, int), b: (int, int)) -> (int, int) {
    (a.0 + b.0, a.1 + b.1)
}

pub open spec fn sub_pair(a: (int, int), b: (int, int)) -> (int, int) {
    (a.0 - b.0, a.1 - b.1)
}

pub open spec fn neg_pair(a: (int, int)) -> (int, int) {
    (-a.0, -a.1)
}

/// The squared norm of any pair is a sum of two squares, hence nonnegative.
pub proof fn lemma_norm_sq_nonneg(v: (int, int))
    ensures
        norm_sq_pair(v) >= 0,
{
    assert(v.0 * v.0 >= 0) by (nonlinear_arith);
    assert(v.1 * v.1 >= 0) by (nonlinear_arith);
}

/// A componentwise bound gives a bound on the squared norm, and conversely a
/// bound on the squared norm bounds each component.
pub proof fn lemma_norm_sq_bounds(v: (int, int), b: int)
    requires
        b >= 0,
        bounded_pair(v, b),
    ensures
        norm_sq_pair(v) <= 2 * b * b,
{
    assert(v.0 * v.0 <= b * b) by (nonlinear_arith)
        requires
            -b <= v.0 <= b,
    ;
    assert(v.1 * v.1 <= b * b) by (nonlinear_arith)
        requires
            -b <= v.1 <= b,
    ;
    assert(2 * b * b == (b * b) + (b * b)) by (nonlinear_arith);
}

/// If the squared norm is at most `2 * b * b` then each component is at most
/// `3 * b / 2` in magnitude (a rational upper bound for `b * sqrt(2)`).
pub proof fn lemma_comp_from_norm_sq(v: (int, int), b: int)
    requires
        b >= 0,
        norm_sq_pair(v) <= 2 * b * b,
    ensures
        bounded_pair(v, 3 * b / 2 + 1),
{
    lemma_sq_le_implies_le(v.0, 3 * b / 2 + 1);
    lemma_sq_le_implies_le(v.1, 3 * b / 2 + 1);
    assert(v.0 * v.0 <= 2 * b * b && v.1 * v.1 <= 2 * b * b) by {
        assert(v.0 * v.0 >= 0) by (nonlinear_arith);
        assert(v.1 * v.1 >= 0) by (nonlinear_arith);
    }
    assert(2 * b * b < (3 * b / 2 + 1) * (3 * b / 2 + 1)) by (nonlinear_arith)
        requires
            b >= 0,
    ;
}

/// Magnitude bound for a product of two bounded factors.
pub proof fn lemma_mul_bounds(a: int, b: int, l: int)
    requires
        l >= 0,
        -l <= a <= l,
        -l <= b <= l,
    ensures
        -(l * l) <= a * b <= l * l,
{
    assert(-(l * l) <= a * b <= l * l) by (nonlinear_arith)
        requires
            l >= 0,
            -l <= a <= l,
            -l <= b <= l,
    ;
}

/// A truncated quotient of `i64` values (with the smallest value ruled
/// out) fits back into `i64`.
proof fn lemma_div_mag_fits(a: int, b: int)
    requires
        b != 0,
        i64::MIN < a <= i64::MAX,
    ensures
        i64::MIN <= crate::math::div_tz_signed(a, b) <= i64::MAX,
{
    if a >= 0 {
        crate::math::lemma_div_tz_signed_mag(a, b, a);
    } else {
        crate::math::lemma_div_tz_signed_mag(a, b, -a);
    }
}

/// If `x * x < c * c` for a nonnegative `c` then `-c <= x <= c`.
proof fn lemma_sq_le_implies_le(x: int, c: int)
    requires
        c >= 0,
    ensures
        x * x < c * c ==> -c <= x <= c,
{
    assert(x > c ==> x * x >= c * c) by (nonlinear_arith)
        requires
            c >= 0,
    ;
    assert(x < -c ==> x * x >= c * c) by (nonlinear_arith)
        requires
            c >= 0,
    ;
}

impl Vector2 {
    pub open spec fn zero_spec() -> Vector2 {
        Vector2 { x: 0, y: 0 }
    }

    pub fn new(x: i64, y: i64) -> (r: Vector2)
        ensures
            r@ == (x as int, y as int),
    {
        Vector2 { x, y }
    }

    pub fn zero() -> (r: Vector2)
        ensures
            r@ == (0int, 0int),
    {
        Vector2 { x: 0, y: 0 }
    }

    /// Componentwise minimum.
    pub fn min(&self, other: &Vector2) -> (r: Vector2)
        ensures
            r.x == if self.x <= other.x {
                self.x
            } else {
                other.x
            },
            r.y == if self.y <= other.y {
                self.y
            } else {
                other.y
            },
    {
        Vector2 {
            x: if self.x <= other.x {
                self.x
            } else {
                other.x
            },
            y: if self.y <= other.y {
                self.y
            } else {
                other.y
            },
        }
    }

    /// Componentwise maximum.
    pub fn max(&self, other: &Vector2) -> (r: Vector2)
        ensures
            r.x == if self.x >= other.x {
                self.x
            } else {
                other.x
            },
            r.y == if self.y >= other.y {
                self.y
            } else {
                other.y
            },
    {
        Vector2 {
            x: if self.x >= other.x {
                self.x
            } else {
                other.x
            },
            y: if self.y >= other.y {
                self.y
            } else {
                other.y
            },
        }
    }

    pub fn add(self, rhs: Vector2) -> (r: Vector2)
        requires
            i64::MIN <= self.x + rhs.x <= i64::MAX,
            i64::MIN <= self.y + rhs.y <= i64::MAX,
        ensures
            r@ == add_pair(self@, rhs@),
    {
        Vector2 { x: self.x + rhs.x, y: self.y + rhs.y }
    }

    pub fn sub(self, rhs: Vector2) -> (r: Vector2)
        requires
            i64::MIN <= self.x - rhs.x <= i64::MAX,
            i64::MIN <= self.y - rhs.y <= i64::MAX,
        ensures
            r@ == sub_pair(self@, rhs@),
    {
        Vector2 { x: self.x - rhs.x, y: self.y - rhs.y }
    }

    pub fn neg(self) -> (r: Vector2)
        requires
            self.x > i64::MIN,
            self.y > i64::MIN,
        ensures
            r@ == neg_pair(self@),
    {
        Vector2 { x: -self.x, y: -self.y }
    }

    /// Componentwise product.
    pub fn mul(self, rhs: Vector2) -> (r: Vector2)
        requires
            i64::MIN <= self.x * rhs.x <= i64::MAX,
            i64::MIN <= self.y * rhs.y <= i64::MAX,
        ensures
            r@ == (self.x * rhs.x, self.y * rhs.y),
    {
        Vector2 { x: self.x * rhs.x, y: self.y * rhs.y }
    }

    /// Product with a scalar.
    pub fn mul_scalar(self, rhs: i64) -> (r: Vector2)
        requires
            i64::MIN <= self.x * rhs <= i64::MAX,
            i64::MIN <= self.y * rhs <= i64::MAX,
        ensures
            r@ == (self.x * rhs, self.y * rhs),
    {
        Vector2 { x: self.x * rhs, y: self.y * rhs }
    }

    /// Componentwise truncating division.
    pub fn div(self, rhs: Vector2) -> (r: Vector2)
        requires
            rhs.x != 0,
            rhs.y != 0,
            self.x > i64::MIN,
            self.y > i64::MIN,
            rhs.x > i64::MIN,
            rhs.y > i64::MIN,
        ensures
            r@ == (
                crate::math::div_tz_signed(self.x as int, rhs.x as int),
                crate::math::div_tz_signed(self.y as int, rhs.y as int),
            ),
    {
        proof {
            lemma_div_mag_fits(self.x as int, rhs.x as int);
            lemma_div_mag_fits(self.y as int, rhs.y as int);
        }
        Vector2 {
            x: crate::math::div_trunc_signed(self.x as i128, rhs.x as i128) as i64,
            y: crate::math::div_trunc_signed(self.y as i128, rhs.y as i128) as i64,
        }
    }

    /// Truncating division by a scalar.
    pub fn div_scalar(self, rhs: i64) -> (r: Vector2)
        requires
            rhs != 0,
            self.x > i64::MIN,
            self.y > i64::MIN,
            rhs > i64::MIN,
        ensures
            r@ == (
                crate::math::div_tz_signed(self.x as int, rhs as int),
                crate::math::div_tz_signed(self.y as int, rhs as int),
            ),
    {
        proof {
            lemma_div_mag_fits(self.x as int, rhs as int);
            lemma_div_mag_fits(self.y as int, rhs as int);
        }
        Vector2 {
            x: crate::math::div_trunc_signed(self.x as i128, rhs as i128) as i64,
            y: crate::math::div_trunc_signed(self.y as i128, rhs as i128) as i64,
        }
    }

    /// Dot product, computed in `i128` so it cannot overflow for any
    /// controller-scale input.
    pub fn dot(&self, other: &Vector2) -> (r: i128)
        requires
            bounded_pair(self@, COMP_LIMIT as int),
            bounded_pair(other@, COMP_LIMIT as int),
        ensures
            r == dot_pair(self@, other@),
    {
        proof {
            lemma_mul_bounds(self.x as int, other.x as int, COMP_LIMIT as int);
            lemma_mul_bounds(self.y as int, other.y as int, COMP_LIMIT as int);
        }
        (self.x as i128) * (other.x as i128) + (self.y as i128) * (other.y as i128)
    }

    /// Squared Euclidean norm.
    pub fn norm_sq(&self) -> (r: i128)
        requires
            bounded_pair(self@, COMP_LIMIT as int),
        ensures
            r == norm_sq_pair(self@),
            r >= 0,
    {
        proof {
            lemma_norm_sq_nonneg(self@);
        }
        self.dot(self)
    }
}

impl Default for Vector2 {
    /// The zero vector.
    fn default() -> (r: Vector2)
        ensures
            r@ == (0int, 0int),
    {
        Vector2 { x: 0, y: 0 }
    }
}

} // verus!
