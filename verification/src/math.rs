//! Fixed-point scalar and vector arithmetic for the controller.
//!
//! Quantities are integers in milli-units: `SCALE` milli-units make one
//! world unit. Division truncates toward zero (like Rust's `/` on signed
//! integers), which `div_tz` captures exactly, and square roots round down,
//! which `sqrt_floor` captures exactly.

use vstd::prelude::*;

use crate::vector2::bounded_pair;
use crate::vector2::lemma_norm_sq_nonneg;
use crate::vector2::norm_sq_pair;
use crate::vector2::sub_pair;
use crate::vector2::Vector2;

verus! {

/// Milli-units per world unit.
pub const SCALE: i64 = 1000;

/// Magnitude cap on the arguments of the scalar helpers; keeps every
/// intermediate product inside `i128` with a wide margin.
pub const ARG_LIMIT: i64 = 1_000_000_000_000_000;

/// Magnitude cap on the factors of `mul_milli`, chosen so the scaled
/// product always fits in `i64`.
pub const MUL_LIMIT: i64 = 10_000_000_000;

/// Magnitude bound for a product from bounds on the two factors.
pub proof fn lemma_mul_bounds2(a: int, b: int, la: int, lb: int)
    requires
        la >= 0,
        lb >= 0,
        -la <= a <= la,
        -lb <= b <= lb,
    ensures
        -(la * lb) <= a * b <= la * lb,
{
    assert(-(la * lb) <= a * b <= la * lb) by (nonlinear_arith)
        requires
            la >= 0,
            lb >= 0,
            -la <= a <= la,
            -lb <= b <= lb,
    ;
}

/// Truncating (toward zero) division, the semantics of Rust's `/` on
/// signed integers; meaningful for `b > 0`.
pub open spec fn div_tz(a: int, b: int) -> int {
    if a >= 0 {
        a / b
    } else {
        -((-a) / b)
    }
}

/// For a nonnegative dividend and positive divisor, the quotient lies
/// between zero and the dividend.
proof fn lemma_div_pos_bounds(a: int, b: int)
    requires
        a >= 0,
        b >= 1,
    ensures
        0 <= a / b <= a,
{
    assert(0 <= a / b <= a) by (nonlinear_arith)
        requires
            a >= 0,
            b >= 1,
    ;
}

/// If `|a| <= b * c` then `|div_tz(a, b)| <= c`.
pub proof fn lemma_div_tz_mag(a: int, b: int, c: int)
    requires
        b >= 1,
        c >= 0,
        -(b * c) <= a <= b * c,
    ensures
        -c <= div_tz(a, b) <= c,
{
    if a >= 0 {
        lemma_div_pos_bounds(a, b);
        assert(a / b <= c) by (nonlinear_arith)
            requires
                b >= 1,
                c >= 0,
                0 <= a <= b * c,
        ;
    } else {
        lemma_div_pos_bounds(-a, b);
        assert((-a) / b <= c) by (nonlinear_arith)
            requires
                b >= 1,
                c >= 0,
                0 <= -a <= b * c,
        ;
    }
}

/// Scaling `x` by a ratio `s / d` with `0 <= s <= d` and truncating keeps
/// the result between zero and `x`.
pub proof fn lemma_div_tz_between(x: int, s: int, d: int)
    requires
        0 <= s <= d,
        d >= 1,
    ensures
        x >= 0 ==> 0 <= div_tz(x * s, d) <= x,
        x <= 0 ==> x <= div_tz(x * s, d) <= 0,
{
    if x >= 0 {
        assert(0 <= x * s <= d * x) by (nonlinear_arith)
            requires
                0 <= s <= d,
                x >= 0,
        ;
        lemma_div_tz_mag(x * s, d, x);
    } else {
        assert(d * x <= x * s <= 0) by (nonlinear_arith)
            requires
                0 <= s <= d,
                x <= 0,
        ;
        assert(d * x == -(d * (-x))) by (nonlinear_arith);
        lemma_div_tz_mag(x * s, d, -x);
    }
}

/// Truncating division, computed through unsigned division so the rounding
/// direction is explicit.
pub fn div_trunc(a: i128, b: i128) -> (r: i128)
    requires
        b > 0,
        a > i128::MIN,
    ensures
        r == div_tz(a as int, b as int),
{
    if a >= 0 {
        let q = (a as u128) / (b as u128);
        proof {
            lemma_div_pos_bounds(a as int, b as int);
        }
        q as i128
    } else {
        let q = ((-a) as u128) / (b as u128);
        proof {
            lemma_div_pos_bounds(-a as int, b as int);
        }
        -(q as i128)
    }
}

/// Truncating division with any nonzero divisor.
pub open spec fn div_tz_signed(a: int, b: int) -> int {
    if b > 0 {
        div_tz(a, b)
    } else {
        -div_tz(a, -b)
    }
}

/// Truncating division never grows the magnitude of the dividend.
pub proof fn lemma_div_tz_signed_mag(a: int, b: int, c: int)
    requires
        b != 0,
        c >= 0,
        -c <= a <= c,
    ensures
        -c <= div_tz_signed(a, b) <= c,
{
    if b > 0 {
        assert(b * c >= c) by (nonlinear_arith)
            requires
                b >= 1,
                c >= 0,
        ;
        lemma_div_tz_mag(a, b, c);
    } else {
        assert((-b) * c >= c) by (nonlinear_arith)
            requires
                -b >= 1,
                c >= 0,
        ;
        lemma_div_tz_mag(a, -b, c);
    }
}

/// Truncating division for a divisor of either sign.
pub fn div_trunc_signed(a: i128, b: i128) -> (r: i128)
    requires
        b != 0,
        a > i128::MIN,
        b > i128::MIN,
    ensures
        r == div_tz_signed(a as int, b as int),
{
    proof {
        if a >= 0 {
            lemma_div_tz_signed_mag(a as int, b as int, a as int);
        } else {
            lemma_div_tz_signed_mag(a as int, b as int, -a as int);
        }
    }
    if b > 0 {
        div_trunc(a, b)
    } else {
        -div_trunc(a, -b)
    }
}

/// The integer square root, rounded down; zero for negative arguments.
pub open spec fn sqrt_floor(n: int) -> int
    decreases n,
{
    if n <= 0 {
        0
    } else {
        let p = sqrt_floor(n - 1);
        if (p + 1) * (p + 1) <= n {
            p + 1
        } else {
            p
        }
    }
}

/// `sqrt_floor(n)` is the unique nonnegative root: its square is at most
/// `n` and the next square is beyond `n`.
pub proof fn lemma_sqrt_floor_props(n: int)
    requires
        n >= 0,
    ensures
        sqrt_floor(n) >= 0,
        sqrt_floor(n) * sqrt_floor(n) <= n,
        n < (sqrt_floor(n) + 1) * (sqrt_floor(n) + 1),
    decreases n,
{
    if n == 0 {
        assert(sqrt_floor(0) == 0);
    } else {
        lemma_sqrt_floor_props(n - 1);
        let p = sqrt_floor(n - 1);
        if (p + 1) * (p + 1) <= n {
            assert(sqrt_floor(n) == p + 1);
            assert(n - 1 < (p + 1) * (p + 1));
            assert((p + 1) * (p + 1) < (p + 2) * (p + 2)) by (nonlinear_arith)
                requires
                    p >= 0,
            ;
            assert(n < (p + 2) * (p + 2));
        } else {
            assert(sqrt_floor(n) == p);
            assert(n < (p + 1) * (p + 1));
        }
    }
    let s = sqrt_floor(n);
    assert((s + 1) * (s + 1) == s * s + 2 * s + 1) by (nonlinear_arith);
    assert((s + 2) * (s + 2) == s * s + 4 * s + 4) by (nonlinear_arith);
    assert(s * s == (s - 1 + 1) * (s - 1 + 1)) by (nonlinear_arith);
}

/// Any nonnegative `r` with `r * r <= n < (r + 1) * (r + 1)` equals
/// `sqrt_floor(n)`.
pub proof fn lemma_sqrt_floor_unique(n: int, r: int)
    requires
        n >= 0,
        r >= 0,
        r * r <= n,
        n < (r + 1) * (r + 1),
    ensures
        r == sqrt_floor(n),
{
    lemma_sqrt_floor_props(n);
    let s = sqrt_floor(n);
    assert(r < s ==> (r + 1) * (r + 1) <= s * s) by (nonlinear_arith)
        requires
            r >= 0,
            s >= 0,
    ;
    assert(s < r ==> (s + 1) * (s + 1) <= r * r) by (nonlinear_arith)
        requires
            r >= 0,
            s >= 0,
    ;
}

/// The floor square root of a positive number is positive.
pub proof fn lemma_sqrt_floor_pos(n: int)
    requires
        n >= 1,
    ensures
        sqrt_floor(n) >= 1,
{
    lemma_sqrt_floor_props(n);
    let s = sqrt_floor(n);
    assert(s >= 1) by (nonlinear_arith)
        requires
            s >= 0,
            s * s <= n,
            n < (s + 1) * (s + 1),
            n >= 1,
    ;
}

/// For nonnegative values, comparing squares compares the values.
pub proof fn lemma_sq_ordered(x: int, c: int)
    requires
        x >= 0,
        c >= 0,
        x * x <= c * c,
    ensures
        x <= c,
{
    assert(x > c ==> x * x > c * c) by (nonlinear_arith)
        requires
            c >= 0,
    ;
}

/// Integer square root of a `u128`, by bisection on the root.
pub fn isqrt(n: u128) -> (r: u128)
    ensures
        r == sqrt_floor(n as int),
        r * r <= n,
        n < (r + 1) * (r + 1),
{
    let mut lo: u128 = 0;
    let mut hi: u128 = 0x1_0000_0000_0000_0000;
    proof {
        assert((hi as int) * (hi as int) > u128::MAX as int) by (nonlinear_arith)
            requires
                hi == 0x1_0000_0000_0000_0000u128,
        ;
    }
    while lo + 1 < hi
        invariant
            lo < hi <= 0x1_0000_0000_0000_0000,
            lo * lo <= n,
            n < hi * hi,
        decreases hi - lo,
    {
        let mid = lo + (hi - lo) / 2;
        proof {
            assert(mid * mid < 0x1_0000_0000_0000_0000u128 * 0x1_0000_0000_0000_0000u128)
                by (nonlinear_arith)
                requires
                    0 <= mid < 0x1_0000_0000_0000_0000u128,
            ;
        }
        let sq = mid * mid;
        if sq <= n {
            lo = mid;
        } else {
            hi = mid;
        }
    }
    proof {
        lemma_sqrt_floor_unique(n as int, lo as int);
    }
    lo
}

/// `clamp(v, lo, hi)` is `v` pushed into `[lo, hi]`.
pub open spec fn clamp_spec(v: int, lo: int, hi: int) -> int {
    if v < lo {
        lo
    } else if v > hi {
        hi
    } else {
        v
    }
}

pub fn clamp(v: i64, lo: i64, hi: i64) -> (r: i64)
    requires
        lo <= hi,
    ensures
        r == clamp_spec(v as int, lo as int, hi as int),
{
    if v < lo {
        lo
    } else if v > hi {
        hi
    } else {
        v
    }
}

/// Linear interpolation from `a` to `b` by the milli-fraction `t`.
pub open spec fn lerp_spec(a: int, b: int, t: int) -> int {
    a + div_tz((b - a) * t, SCALE as int)
}

pub fn lerp(a: i64, b: i64, t: i64) -> (r: i64)
    requires
        0 <= t <= SCALE,
    ensures
        r == lerp_spec(a as int, b as int, t as int),
        a <= b ==> a <= r <= b,
        b <= a ==> b <= r <= a,
{
    proof {
        lemma_mul_bounds2((b - a) as int, t as int, u64::MAX as int, SCALE as int);
        lemma_div_tz_between((b - a) as int, t as int, SCALE as int);
    }
    let num = ((b as i128) - (a as i128)) * (t as i128);
    let q = div_trunc(num, SCALE as i128);
    ((a as i128) + q) as i64
}

/// Where `value` sits between `a` and `b`, as a milli-fraction.
pub open spec fn inverse_lerp_spec(a: int, b: int, value: int) -> int {
    div_tz((value - a) * (SCALE as int), b - a)
}

pub fn inverse_lerp(a: i64, b: i64, value: i64) -> (r: i64)
    requires
        a < b,
        -ARG_LIMIT <= a <= ARG_LIMIT,
        -ARG_LIMIT <= b <= ARG_LIMIT,
        -ARG_LIMIT <= value <= ARG_LIMIT,
    ensures
        r == inverse_lerp_spec(a as int, b as int, value as int),
{
    proof {
        lemma_mul_bounds2((value - a) as int, SCALE as int, 2 * ARG_LIMIT, SCALE as int);
        assert((b - a) * (2 * ARG_LIMIT * (SCALE as int)) >= 2 * ARG_LIMIT * (SCALE as int))
            by (nonlinear_arith)
            requires
                b - a >= 1,
                ARG_LIMIT > 0,
                SCALE > 0,
        ;
        lemma_div_tz_mag(
            (value - a) * (SCALE as int),
            (b - a) as int,
            2 * ARG_LIMIT * (SCALE as int),
        );
    }
    let num = ((value as i128) - (a as i128)) * (SCALE as i128);
    let q = div_trunc(num, (b as i128) - (a as i128));
    q as i64
}

/// Componentwise linear interpolation of two vectors.
pub fn vec2_lerp(a: Vector2, b: Vector2, t: i64) -> (r: Vector2)
    requires
        0 <= t <= SCALE,
    ensures
        r@ == (lerp_spec(a@.0, b@.0, t as int), lerp_spec(a@.1, b@.1, t as int)),
{
    Vector2 { x: lerp(a.x, b.x, t), y: lerp(a.y, b.y, t) }
}

/// Fixed-point product: `a * b` in milli-units is `a * b / SCALE`.
pub open spec fn mul_milli_spec(a: int, b: int) -> int {
    div_tz(a * b, SCALE as int)
}

pub fn mul_milli(a: i64, b: i64) -> (r: i64)
    requires
        -MUL_LIMIT <= a <= MUL_LIMIT,
        -MUL_LIMIT <= b <= MUL_LIMIT,
    ensures
        r == mul_milli_spec(a as int, b as int),
        -100_000_000_000_000_000 <= r <= 100_000_000_000_000_000,
{
    proof {
        lemma_mul_bounds2(a as int, b as int, MUL_LIMIT as int, MUL_LIMIT as int);
        assert(MUL_LIMIT * MUL_LIMIT == (SCALE as int) * 100_000_000_000_000_000int);
        lemma_div_tz_mag(a * b, SCALE as int, 100_000_000_000_000_000int);
    }
    let num = (a as i128) * (b as i128);
    let q = div_trunc(num, SCALE as i128);
    q as i64
}

/// The signed axis a pair of digital direction buttons produces: one
/// milli-unit toward the pressed side, zero when both or neither is held.
pub open spec fn axis_spec(neg: bool, pos: bool) -> int {
    if neg && !pos {
        -(SCALE as int)
    } else if pos && !neg {
        SCALE as int
    } else {
        0
    }
}

pub fn axis_from_digital(neg: bool, pos: bool) -> (r: i64)
    ensures
        r == axis_spec(neg, pos),
{
    match (neg, pos) {
        (true, false) => -SCALE,
        (false, true) => SCALE,
        _ => 0,
    }
}

/// The launch speed that reaches `height` under `gravity`: the square root
/// of `2 * gravity * height`, or nothing when the radicand is negative.
pub fn velocity_required_for_jump(height: i64, gravity: i64) -> (r: Option<i64>)
    requires
        -ARG_LIMIT <= height <= ARG_LIMIT,
        -ARG_LIMIT <= gravity <= ARG_LIMIT,
    ensures
        match r {
            Some(s) => 2 * height * gravity >= 0 && s == sqrt_floor(2 * height * gravity)
                && s >= 0,
            None => 2 * height * gravity < 0,
        },
{
    proof {
        lemma_mul_bounds2(height as int, gravity as int, ARG_LIMIT as int, ARG_LIMIT as int);
        assert(2 * ((height as int) * (gravity as int)) == 2 * (height as int) * (gravity as int))
            by (nonlinear_arith);
    }
    let rad = 2 * ((height as i128) * (gravity as i128));
    if rad < 0 {
        None
    } else {
        let root = isqrt(rad as u128);
        proof {
            assert((root as int) * (root as int) <= 2 * ARG_LIMIT * ARG_LIMIT);
            assert(2 * ARG_LIMIT * ARG_LIMIT <= 2_000_000_000_000_000int
                * 2_000_000_000_000_000int) by (nonlinear_arith)
                requires
                    ARG_LIMIT == 1_000_000_000_000_000,
            ;
            lemma_sq_ordered(root as int, 2_000_000_000_000_000int);
        }
        Some(root as i64)
    }
}

/// Exact statement of one clamped step from `from` toward `to`: reach `to`
/// when it is within `amount`, otherwise advance `amount` along the
/// (floor-normalized) direction of the difference.
pub open spec fn move_towards_spec(from: (int, int), to: (int, int), amount: int) -> (int, int) {
    let diff = sub_pair(to, from);
    let nsq = norm_sq_pair(diff);
    if nsq == 0 {
        from
    } else if nsq <= amount * amount {
        to
    } else {
        let d = sqrt_floor(nsq);
        (from.0 + div_tz(diff.0 * amount, d), from.1 + div_tz(diff.1 * amount, d))
    }
}

/// `(m - x)^2 <= x^2` whenever `m` lies between `0` and `x`.
proof fn lemma_between_sq(m: int, x: int)
    requires
        (0 <= m <= x) || (x <= m <= 0),
    ensures
        (m - x) * (m - x) <= x * x,
{
    assert((m - x) * (m - x) <= x * x) by (nonlinear_arith)
        requires
            (0 <= m <= x) || (x <= m <= 0),
    ;
}

/// No overshoot: a clamped step from `from` toward `to` ends at least as
/// close to `to` as it began, and lands exactly on `to` once the gap is
/// within the step.
pub proof fn lemma_no_overshoot(from: (int, int), to: (int, int), amount: int)
    requires
        amount >= 0,
    ensures
        norm_sq_pair(sub_pair(move_towards_spec(from, to, amount), to)) <= norm_sq_pair(
            sub_pair(from, to),
        ),
        norm_sq_pair(sub_pair(to, from)) <= amount * amount ==> move_towards_spec(from, to, amount)
            == to,
{
    let diff = sub_pair(to, from);
    let nsq = norm_sq_pair(diff);
    lemma_norm_sq_nonneg(diff);
    lemma_norm_sq_nonneg(sub_pair(from, to));
    assert(sub_pair(from, to) == (-diff.0, -diff.1));
    assert((-diff.0) * (-diff.0) == diff.0 * diff.0 && (-diff.1) * (-diff.1) == diff.1 * diff.1)
        by (nonlinear_arith);
    if nsq == 0 {
        assert(diff.0 == 0 && diff.1 == 0) by (nonlinear_arith)
            requires
                diff.0 * diff.0 + diff.1 * diff.1 == 0,
        ;
        assert(from == to);
        assert(move_towards_spec(from, to, amount) == from);
    } else if nsq <= amount * amount {
        assert(move_towards_spec(from, to, amount) == to);
        assert(sub_pair(to, to) == (0int, 0int));
        assert(norm_sq_pair((0int, 0int)) == 0);
    } else {
        let d = sqrt_floor(nsq);
        lemma_sqrt_floor_props(nsq);
        assert(amount <= d) by (nonlinear_arith)
            requires
                amount >= 0,
                d >= 0,
                amount * amount < (d + 1) * (d + 1),
        ;
        assert((d + 1) * (d + 1) == d * d + 2 * d + 1) by (nonlinear_arith);
        assert(d >= 1);
        lemma_div_tz_between(diff.0, amount, d);
        lemma_div_tz_between(diff.1, amount, d);
        let mx = div_tz(diff.0 * amount, d);
        let my = div_tz(diff.1 * amount, d);
        lemma_between_sq(mx, diff.0);
        lemma_between_sq(my, diff.1);
        assert(sub_pair(move_towards_spec(from, to, amount), to) == (mx - diff.0, my - diff.1));
    }
}

/// One clamped linear step from `from` toward `to`, never overshooting:
/// the result's distance to `to` never exceeds the starting distance, and
/// the target is reached exactly once it lies within `amount`.
pub fn move_towards_vec2(from: Vector2, to: Vector2, amount: i64) -> (r: Vector2)
    requires
        bounded_pair(from@, ARG_LIMIT as int),
        bounded_pair(to@, ARG_LIMIT as int),
        amount >= 0,
    ensures
        r@ == move_towards_spec(from@, to@, amount as int),
        norm_sq_pair(sub_pair(r@, to@)) <= norm_sq_pair(sub_pair(from@, to@)),
        from@.0 <= to@.0 ==> from@.0 <= r@.0 <= to@.0,
        to@.0 <= from@.0 ==> to@.0 <= r@.0 <= from@.0,
        from@.1 <= to@.1 ==> from@.1 <= r@.1 <= to@.1,
        to@.1 <= from@.1 ==> to@.1 <= r@.1 <= from@.1,
{
    let dx = (to.x as i128) - (from.x as i128);
    let dy = (to.y as i128) - (from.y as i128);
    proof {
        lemma_mul_bounds2(dx as int, dx as int, 2 * ARG_LIMIT, 2 * ARG_LIMIT);
        lemma_mul_bounds2(dy as int, dy as int, 2 * ARG_LIMIT, 2 * ARG_LIMIT);
        lemma_norm_sq_nonneg(sub_pair(to@, from@));
        assert(dx * dx >= 0 && dy * dy >= 0) by (nonlinear_arith);
    }
    let nsq = dx * dx + dy * dy;
    if nsq == 0 {
        proof {
            lemma_norm_sq_nonneg(sub_pair(from@, to@));
            assert(sub_pair(from@, to@) == (-dx as int, -dy as int));
            assert((-dx) * (-dx) == dx * dx && (-dy) * (-dy) == dy * dy) by (nonlinear_arith);
        }
        return from;
    }
    proof {
        lemma_mul_bounds2(amount as int, amount as int, i64::MAX as int, i64::MAX as int);
    }
    if nsq <= (amount as i128) * (amount as i128) {
        proof {
            lemma_norm_sq_nonneg(sub_pair(to@, to@));
            lemma_norm_sq_nonneg(sub_pair(from@, to@));
        }
        return to;
    }
    let d = isqrt(nsq as u128);
    proof {
        // the step is strictly shorter than the gap, so `amount <= d`
        assert(amount as int <= d as int) by (nonlinear_arith)
            requires
                amount as int >= 0,
                d as int >= 0,
                (amount as int) * (amount as int) < ((d as int) + 1) * ((d as int) + 1),
        ;
        assert(((d as int) + 1) * ((d as int) + 1) == (d as int) * (d as int) + 2 * (d as int) + 1)
            by (nonlinear_arith);
        assert(d >= 1);
        assert((d as int) * (d as int) <= (3 * ARG_LIMIT) * (3 * ARG_LIMIT)) by (nonlinear_arith)
            requires
                (d as int) * (d as int) <= 8 * (ARG_LIMIT * ARG_LIMIT),
                ARG_LIMIT == 1_000_000_000_000_000,
        ;
        lemma_sq_ordered(d as int, 3 * ARG_LIMIT);
        lemma_mul_bounds2(dx as int, amount as int, 2 * ARG_LIMIT, 3 * ARG_LIMIT);
        lemma_mul_bounds2(dy as int, amount as int, 2 * ARG_LIMIT, 3 * ARG_LIMIT);
        lemma_div_tz_between(dx as int, amount as int, d as int);
        lemma_div_tz_between(dy as int, amount as int, d as int);
    }
    let mx = div_trunc(dx * (amount as i128), d as i128);
    let my = div_trunc(dy * (amount as i128), d as i128);
    let r = Vector2 { x: ((from.x as i128) + mx) as i64, y: ((from.y as i128) + my) as i64 };
    proof {
        lemma_between_sq(mx as int, dx as int);
        lemma_between_sq(my as int, dy as int);
        assert(sub_pair(r@, to@) == (mx - dx, my - dy));
        assert(sub_pair(from@, to@) == (-dx as int, -dy as int));
        assert((-dx) * (-dx) == dx * dx && (-dy) * (-dy) == dy * dy) by (nonlinear_arith);
    }
    r
}

} // verus!
