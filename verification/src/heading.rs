//! Directions of travel: unit vectors in millionths, made from angles in
//! millionths of a radian.

use vstd::prelude::*;
use crate::numeric::{
    ceil_sqrt, floor_sqrt, isqrt, isqrt_ceil, lemma_ceil_sqrt, lemma_floor_sqrt_exists,
    lemma_floor_sqrt_lower, lemma_floor_sqrt_unique,
    lemma_negated_square, lemma_product_bound, lemma_square_monotone, magnitude, quotient, LIMIT,
};
use crate::vec2::{
    lemma_quotient_magnitude, lemma_scaled_norm, lemma_scaled_norm_lower, Vec2,
};

verus! {

/// The length of a heading: one, in millionths.
pub const UNIT: i64 = 1_000_000;

/// A quarter of a turn, in millionths of a radian.
pub const QUARTER_TURN: i64 = 1_570_796;

/// An eighth of a turn, in millionths of a radian.
pub const EIGHTH_TURN: i64 = 785_398;

/// A full turn, in millionths of a radian: four quarter turns.
pub const FULL_TURN: i64 = 6_283_184;

/// The sine of an eighth of a turn, in millionths, rounded down.
pub const SINE_EIGHTH_TURN: i64 = 707_106;

/// Sine of an angle between zero and an eighth of a turn: the odd polynomial of degree
/// seven in nested form, every quotient rounded down, never above the sine of an eighth
/// of a turn.
pub open spec fn spec_sine_eighth(r: int) -> int {
    let square = r * r / (UNIT as int);
    let a = UNIT - square / 42;
    let b = UNIT - (square * a / (UNIT as int)) / 20;
    let c = UNIT - (square * b / (UNIT as int)) / 6;
    let s = r * c / (UNIT as int);
    if s > SINE_EIGHTH_TURN {
        SINE_EIGHTH_TURN as int
    } else {
        s
    }
}

/// Sine of an angle within an eighth of a turn of zero.
pub open spec fn spec_sine(r: int) -> int {
    if r >= 0 {
        spec_sine_eighth(r)
    } else {
        -spec_sine_eighth(-r)
    }
}

/// The sine of an angle within an eighth of a turn of zero lies within the sine of an
/// eighth of a turn of zero.
pub proof fn lemma_sine_bounds(r: int)
    requires
        -EIGHTH_TURN <= r <= EIGHTH_TURN,
    ensures
        -SINE_EIGHTH_TURN <= spec_sine(r) <= SINE_EIGHTH_TURN,
        r >= 0 ==> spec_sine(r) >= 0,
        r <= 0 ==> spec_sine(r) <= 0,
{
    let m = magnitude(r);
    lemma_product_bound(m, m, EIGHTH_TURN as int, EIGHTH_TURN as int);
    lemma_negated_square(m);
    let square = m * m / (UNIT as int);
    let a = UNIT - square / 42;
    lemma_product_bound(square, a, UNIT as int, UNIT as int);
    assert(square * a >= 0) by (nonlinear_arith)
        requires
            square >= 0,
            a >= 0,
    ;
    let b = UNIT - (square * a / (UNIT as int)) / 20;
    lemma_product_bound(square, b, UNIT as int, UNIT as int);
    assert(square * b >= 0) by (nonlinear_arith)
        requires
            square >= 0,
            b >= 0,
    ;
    let c = UNIT - (square * b / (UNIT as int)) / 6;
    assert(m * c >= 0 && (m == 0 ==> m * c == 0)) by (nonlinear_arith)
        requires
            m >= 0,
            c >= 0,
    ;
}

/// Sine, in millionths, of an angle between zero and an eighth of a turn.
fn sine_eighth(r: i64) -> (s: i64)
    requires
        0 <= r <= EIGHTH_TURN,
    ensures
        s == spec_sine_eighth(r as int),
        0 <= s <= SINE_EIGHTH_TURN,
{
    proof {
        lemma_product_bound(r as int, r as int, EIGHTH_TURN as int, EIGHTH_TURN as int);
        assert(r * r >= 0) by (nonlinear_arith);
    }
    let square: i64 = r * r / UNIT;
    let a: i64 = UNIT - square / 42;
    proof {
        lemma_product_bound(square as int, a as int, UNIT as int, UNIT as int);
        assert(square * a >= 0) by (nonlinear_arith)
            requires
                square >= 0,
                a >= 0,
        ;
    }
    let b: i64 = UNIT - (square * a / UNIT) / 20;
    proof {
        lemma_product_bound(square as int, b as int, UNIT as int, UNIT as int);
        assert(square * b >= 0) by (nonlinear_arith)
            requires
                square >= 0,
                b >= 0,
        ;
    }
    let c: i64 = UNIT - (square * b / UNIT) / 6;
    proof {
        lemma_product_bound(r as int, c as int, UNIT as int, UNIT as int);
        assert(r * c >= 0) by (nonlinear_arith)
            requires
                r >= 0,
                c >= 0,
        ;
    }
    let s: i64 = r * c / UNIT;
    if s > SINE_EIGHTH_TURN {
        SINE_EIGHTH_TURN
    } else {
        s
    }
}

/// Sine, in millionths, of an angle within an eighth of a turn of zero.
pub fn sine(r: i64) -> (s: i64)
    requires
        -EIGHTH_TURN <= r <= EIGHTH_TURN,
    ensures
        s == spec_sine(r as int),
        -SINE_EIGHTH_TURN <= s <= SINE_EIGHTH_TURN,
{
    if r >= 0 {
        sine_eighth(r)
    } else {
        -sine_eighth(-r)
    }
}

/// Turning a vector by an angle multiplies its squared length by that of the heading, and
/// the inner product and signed area with the turned vector are the cosine and the sine
/// times the squared length.
proof fn lemma_turn_identities(c: int, s: int, vx: int, vy: int)
    ensures
        ({
            let x = c * vx - s * vy;
            let y = s * vx + c * vy;
            let n = vx * vx + vy * vy;
            &&& x * x + y * y == (c * c + s * s) * n
            &&& vx * x + vy * y == c * n
            &&& vx * y - vy * x == s * n
        }),
{
    let cx = c * vx;
    let sy = s * vy;
    let sx = s * vx;
    let cy = c * vy;
    let x = cx - sy;
    let y = sx + cy;
    let n = vx * vx + vy * vy;
    assert(x * x == cx * cx - 2 * (cx * sy) + sy * sy) by (nonlinear_arith)
        requires
            x == cx - sy,
    ;
    assert(y * y == sx * sx + 2 * (sx * cy) + cy * cy) by (nonlinear_arith)
        requires
            y == sx + cy,
    ;
    assert(cx * sy == sx * cy) by (nonlinear_arith)
        requires
            cx == c * vx,
            sy == s * vy,
            sx == s * vx,
            cy == c * vy,
    ;
    assert(cx * cx == (c * c) * (vx * vx)) by (nonlinear_arith)
        requires
            cx == c * vx,
    ;
    assert(sy * sy == (s * s) * (vy * vy)) by (nonlinear_arith)
        requires
            sy == s * vy,
    ;
    assert(sx * sx == (s * s) * (vx * vx)) by (nonlinear_arith)
        requires
            sx == s * vx,
    ;
    assert(cy * cy == (c * c) * (vy * vy)) by (nonlinear_arith)
        requires
            cy == c * vy,
    ;
    assert((c * c) * (vx * vx) + (s * s) * (vy * vy) + (s * s) * (vx * vx) + (c * c) * (vy * vy)
        == (c * c + s * s) * n) by (nonlinear_arith)
        requires
            n == vx * vx + vy * vy,
    ;
    assert(vx * x + vy * y == c * n) by (nonlinear_arith)
        requires
            x == c * vx - s * vy,
            y == s * vx + c * vy,
            n == vx * vx + vy * vy,
    ;
    assert(vx * y - vy * x == s * n) by (nonlinear_arith)
        requires
            x == c * vx - s * vy,
            y == s * vx + c * vy,
            n == vx * vx + vy * vy,
    ;
}

/// What rounded division leaves out of `a * f` is smaller than the divisor.
proof fn lemma_quotient_rest(a: int, f: int, len: int, p: int)
    requires
        f >= 0,
        len > 0,
        p == quotient(a * f, len),
    ensures
        -len < a * f - p * len < len,
{
    lemma_quotient_magnitude(a, f, len, p);
    let pm = magnitude(p);
    let am = magnitude(a);
    if a >= 0 {
        assert(am * f == a * f);
        assert(pm * len == p * len);
        assert((pm + 1) * len == pm * len + len) by (nonlinear_arith);
    } else {
        assert(am * f == -(a * f)) by (nonlinear_arith)
            requires
                am == -a,
        ;
        assert(pm * len == -(p * len)) by (nonlinear_arith)
            requires
                pm == -p,
        ;
        assert((pm + 1) * len == pm * len + len) by (nonlinear_arith);
    }
}

/// A product is bounded by the magnitude of one factor times a strict bound on the other.
proof fn lemma_rest_product(v: int, e: int, len: int)
    by (nonlinear_arith)
    requires
        -len < e < len,
    ensures
        -(magnitude(v) * len) <= v * e <= magnitude(v) * len,
{
}

/// A vector turned by a shallow heading and brought to length `l` stays within an eighth
/// of a turn of the vector, up to the rounding of its components.
proof fn lemma_turn_within_eighth(c: int, s: int, vx: int, vy: int, l: int, len: int, p: int, q: int)
    requires
        c >= magnitude(s),
        l >= 0,
        len > 0,
        p == quotient((c * vx - s * vy) * l, len),
        q == quotient((s * vx + c * vy) * l, len),
    ensures
        (vx * p + vy * q) + 2 * (magnitude(vx) + magnitude(vy)) >= magnitude(vx * q - vy * p),
{
    let x = c * vx - s * vy;
    let y = s * vx + c * vy;
    let n = vx * vx + vy * vy;
    lemma_turn_identities(c, s, vx, vy);
    lemma_quotient_rest(x, l, len, p);
    lemma_quotient_rest(y, l, len, q);
    let ex = x * l - p * len;
    let ey = y * l - q * len;
    let m = magnitude(vx) + magnitude(vy);
    let dot = vx * p + vy * q;
    let cross = vx * q - vy * p;
    lemma_rest_product(vx, ex, len);
    lemma_rest_product(vy, ey, len);
    lemma_rest_product(vx, ey, len);
    lemma_rest_product(vy, ex, len);
    let e1 = vx * ex + vy * ey;
    let e2 = vx * ey - vy * ex;
    assert(magnitude(vx) * len + magnitude(vy) * len == m * len) by (nonlinear_arith)
        requires
            m == magnitude(vx) + magnitude(vy),
    ;
    assert(-(m * len) <= e1 <= m * len);
    assert(-(m * len) <= e2 <= m * len);
    let ln = l * n;
    assert(n >= 0) by (nonlinear_arith)
        requires
            n == vx * vx + vy * vy,
    ;
    assert(ln >= 0) by (nonlinear_arith)
        requires
            ln == l * n,
            l >= 0,
            n >= 0,
    ;
    let t1 = c * ln;
    let t2 = s * ln;
    assert(-t1 <= t2 <= t1) by (nonlinear_arith)
        requires
            t1 == c * ln,
            t2 == s * ln,
            ln >= 0,
            -c <= s <= c,
    ;
    let pl = p * len;
    let ql = q * len;
    let xl = x * l;
    let yl = y * l;
    assert(len * dot == vx * pl + vy * ql) by (nonlinear_arith)
        requires
            dot == vx * p + vy * q,
            pl == p * len,
            ql == q * len,
    ;
    assert(len * cross == vx * ql - vy * pl) by (nonlinear_arith)
        requires
            cross == vx * q - vy * p,
            pl == p * len,
            ql == q * len,
    ;
    assert(vx * pl == vx * xl - vx * ex) by (nonlinear_arith)
        requires
            pl == xl - ex,
    ;
    assert(vy * ql == vy * yl - vy * ey) by (nonlinear_arith)
        requires
            ql == yl - ey,
    ;
    assert(vx * ql == vx * yl - vx * ey) by (nonlinear_arith)
        requires
            ql == yl - ey,
    ;
    assert(vy * pl == vy * xl - vy * ex) by (nonlinear_arith)
        requires
            pl == xl - ex,
    ;
    assert(vx * xl + vy * yl == l * (vx * x + vy * y)) by (nonlinear_arith)
        requires
            xl == x * l,
            yl == y * l,
    ;
    assert(vx * yl - vy * xl == l * (vx * y - vy * x)) by (nonlinear_arith)
        requires
            xl == x * l,
            yl == y * l,
    ;
    assert(l * (c * n) == c * ln && l * (s * n) == s * ln) by (nonlinear_arith)
        requires
            ln == l * n,
    ;
    assert(len * dot == t1 - e1);
    assert(len * cross == t2 - e2);
    let bound = dot + 2 * m;
    assert(len * bound == len * dot + 2 * (m * len)) by (nonlinear_arith)
        requires
            bound == dot + 2 * m,
    ;
    assert(len * cross <= len * bound);
    assert(-(len * cross) <= len * bound);
    assert(cross <= bound) by (nonlinear_arith)
        requires
            len * cross <= len * bound,
            len > 0,
    ;
    assert(-cross <= bound) by (nonlinear_arith)
        requires
            -(len * cross) <= len * bound,
            len > 0,
    ;
}

/// A direction of travel: a vector of length one, in millionths.
#[derive(Clone, Copy, Debug, PartialEq, Eq, Structural)]
pub struct Heading {
    pub cos: i64,
    pub sin: i64,
}

impl Heading {
    /// The components form a vector of length one, up to the rounding of the cosine.
    pub open spec fn is_unit(self) -> bool {
        &&& -UNIT <= self.cos <= UNIT
        &&& -UNIT <= self.sin <= UNIT
        &&& self.cos * self.cos + self.sin * self.sin <= UNIT * UNIT
        &&& self.cos * self.cos + self.sin * self.sin >= UNIT * UNIT - 2 * UNIT
    }

    /// The heading lies within an eighth of a turn of the positive x axis.
    pub open spec fn is_shallow(self) -> bool {
        self.cos > 0 && magnitude(self.sin as int) <= self.cos
    }

    /// The heading of the angle `r`, which lies within an eighth of a turn of zero.
    pub open spec fn spec_near_axis(r: int) -> Heading {
        let s = spec_sine(r);
        Heading { cos: floor_sqrt(UNIT * UNIT - s * s) as i64, sin: s as i64 }
    }

    /// This heading turned by `quarters` quarter turns counter-clockwise.
    pub open spec fn spec_quarter_turned(self, quarters: int) -> Heading {
        let q = quarters % 4;
        if q == 0 {
            self
        } else if q == 1 {
            Heading { cos: (-self.sin) as i64, sin: self.cos }
        } else if q == 2 {
            Heading { cos: (-self.cos) as i64, sin: (-self.sin) as i64 }
        } else {
            Heading { cos: self.sin, sin: (-self.cos) as i64 }
        }
    }

    /// The heading of any angle: the angle is brought into one full turn, split into the
    /// nearest quarter turn and a rest within an eighth of a turn, and the heading of the
    /// rest is turned by that many quarter turns.
    pub open spec fn spec_from_angle(theta: int) -> Heading {
        let t = theta % (FULL_TURN as int);
        let quarters = (t + EIGHTH_TURN) / (QUARTER_TURN as int);
        Self::spec_near_axis(t - quarters * QUARTER_TURN).spec_quarter_turned(quarters)
    }

    /// The velocity of length `speed` along this heading.
    pub open spec fn spec_velocity(self, speed: int) -> Vec2 {
        Vec2 { x: self.cos, y: self.sin }.spec_scaled_to(speed)
    }

    /// The vector `v` turned by the angle of this heading, at the length of `v` rounded
    /// down, each component rounded toward zero.
    pub open spec fn spec_turn(self, v: Vec2) -> Vec2 {
        let x = self.cos * v.x - self.sin * v.y;
        let y = self.sin * v.x + self.cos * v.y;
        if x == 0 && y == 0 {
            Vec2 { x: 0, y: 0 }
        } else {
            let len = ceil_sqrt(x * x + y * y);
            let speed = floor_sqrt(v.norm_sq());
            Vec2 { x: quotient(x * speed, len) as i64, y: quotient(y * speed, len) as i64 }
        }
    }

    /// This heading with its horizontal component reversed.
    pub open spec fn spec_mirrored(self) -> Heading {
        Heading { cos: (-self.cos) as i64, sin: self.sin }
    }

    /// The heading of an angle within an eighth of a turn of zero has length one and is
    /// shallow.
    pub proof fn lemma_near_axis(r: int)
        requires
            -EIGHTH_TURN <= r <= EIGHTH_TURN,
        ensures
            Self::spec_near_axis(r).is_unit(),
            Self::spec_near_axis(r).is_shallow(),
    {
        lemma_sine_bounds(r);
        let s = spec_sine(r);
        lemma_product_bound(s, s, SINE_EIGHTH_TURN as int, SINE_EIGHTH_TURN as int);
        lemma_negated_square(s);
        let rest = UNIT * UNIT - s * s;
        lemma_floor_sqrt_exists(rest);
        lemma_floor_sqrt_lower(rest, 707_107);
        let c = floor_sqrt(rest);
        assert(c <= UNIT) by (nonlinear_arith)
            requires
                c * c <= rest,
                rest <= UNIT * UNIT,
                UNIT == 1_000_000,
                c >= 0,
        ;
        assert((c + 1) * (c + 1) == c * c + 2 * c + 1) by (nonlinear_arith);
    }

    /// The heading of any angle has length one; that of an angle within an eighth of a
    /// turn of zero, the upper end left out, is shallow and needs no quarter turn.
    pub proof fn lemma_from_angle(theta: int)
        ensures
            Self::spec_from_angle(theta).is_unit(),
            -EIGHTH_TURN <= theta < EIGHTH_TURN ==> Self::spec_from_angle(theta)
                == Self::spec_near_axis(theta) && Self::spec_from_angle(theta).is_shallow(),
    {
        let t = theta % (FULL_TURN as int);
        let quarters = (t + EIGHTH_TURN) / (QUARTER_TURN as int);
        let r = t - quarters * QUARTER_TURN;
        Self::lemma_near_axis(r);
        let base = Self::spec_near_axis(r);
        lemma_negated_square(base.cos as int);
        lemma_negated_square(base.sin as int);
        if -EIGHTH_TURN <= theta < EIGHTH_TURN {
            Self::lemma_near_axis(theta);
        }
    }

    /// The heading of an angle within an eighth of a turn of zero.
    pub fn near_axis(r: i64) -> (h: Heading)
        requires
            -EIGHTH_TURN <= r <= EIGHTH_TURN,
        ensures
            h == Self::spec_near_axis(r as int),
            h.is_unit(),
            h.is_shallow(),
    {
        let s: i64 = sine(r);
        proof {
            lemma_product_bound(s as int, s as int, SINE_EIGHTH_TURN as int, SINE_EIGHTH_TURN as int);
            assert(s * s >= 0) by (nonlinear_arith);
        }
        let rest: i64 = UNIT * UNIT - s * s;
        let c: u64 = isqrt(rest as u128);
        proof {
            lemma_floor_sqrt_lower(rest as int, 707_107);
            assert(c <= UNIT) by (nonlinear_arith)
                requires
                    c * c <= rest,
                    rest <= UNIT * UNIT,
                    UNIT == 1_000_000,
            ;
            assert((c + 1) * (c + 1) == c * c + 2 * c + 1) by (nonlinear_arith);
        }
        Heading { cos: c as i64, sin: s }
    }

    /// This heading turned by `quarters` quarter turns counter-clockwise.
    pub fn quarter_turned(self, quarters: i64) -> (h: Heading)
        requires
            self.is_unit(),
            0 <= quarters,
        ensures
            h == self.spec_quarter_turned(quarters as int),
            h.is_unit(),
    {
        let q: i64 = quarters % 4;
        proof {
            lemma_negated_square(self.cos as int);
            lemma_negated_square(self.sin as int);
        }
        if q == 0 {
            self
        } else if q == 1 {
            Heading { cos: -self.sin, sin: self.cos }
        } else if q == 2 {
            Heading { cos: -self.cos, sin: -self.sin }
        } else {
            Heading { cos: self.sin, sin: -self.cos }
        }
    }

    /// The heading of the angle `theta`, in millionths of a radian, counted
    /// counter-clockwise from the positive x axis.
    pub fn from_angle(theta: i64) -> (h: Heading)
        ensures
            h == Self::spec_from_angle(theta as int),
            h.is_unit(),
            -EIGHTH_TURN <= theta < EIGHTH_TURN ==> h == Self::spec_near_axis(theta as int)
                && h.is_shallow(),
    {
        let rest: i64 = theta % FULL_TURN;
        let t: i64 = if rest < 0 {
            rest + FULL_TURN
        } else {
            rest
        };
        assert(t == (theta as int) % (FULL_TURN as int));
        let quarters: i64 = (t + EIGHTH_TURN) / QUARTER_TURN;
        let r: i64 = t - quarters * QUARTER_TURN;
        Self::near_axis(r).quarter_turned(quarters)
    }

    /// This heading with its horizontal component reversed.
    pub fn mirrored(self) -> (h: Heading)
        requires
            self.is_unit(),
        ensures
            h == self.spec_mirrored(),
            h.is_unit(),
    {
        proof {
            lemma_negated_square(self.cos as int);
        }
        Heading { cos: -self.cos, sin: self.sin }
    }

    /// The velocity of length `speed` along this heading: never longer than `speed`, and
    /// shorter by less than three units.
    pub fn velocity(self, speed: i64) -> (v: Vec2)
        requires
            self.is_unit(),
            0 <= speed <= LIMIT,
        ensures
            v == self.spec_velocity(speed as int),
            v.no_faster_than(speed as int),
            v.no_slower_than(speed - 3),
            v.in_bounds(),
            v.same_quadrant(Vec2 { x: self.cos, y: self.sin }),
            magnitude(self.sin as int) <= magnitude(self.cos as int) ==> magnitude(v.y as int)
                <= magnitude(v.x as int),
    {
        let direction = Vec2 { x: self.cos, y: self.sin };
        direction.scaled_to(speed)
    }

    /// The components of a vector that this heading turns, before they are brought to
    /// length: they are not both zero unless the vector is zero, and after they are
    /// brought to the length of the vector they fit its speed.
    proof fn lemma_turned_components(self, v: Vec2)
        requires
            self.is_unit(),
            v.no_faster_than(LIMIT as int),
        ensures
            ({
                let x = self.cos * v.x - self.sin * v.y;
                let y = self.sin * v.x + self.cos * v.y;
                let speed = floor_sqrt(v.norm_sq());
                let len = ceil_sqrt(x * x + y * y);
                let p = quotient(x * speed, len);
                let q = quotient(y * speed, len);
                &&& -2 * (UNIT * LIMIT) <= x <= 2 * (UNIT * LIMIT)
                &&& -2 * (UNIT * LIMIT) <= y <= 2 * (UNIT * LIMIT)
                &&& 0 <= x * x + y * y <= 8 * (UNIT * LIMIT) * (UNIT * LIMIT)
                &&& 0 <= speed <= LIMIT
                &&& speed * speed <= v.norm_sq()
                &&& (x == 0 && y == 0) <==> v.norm_sq() == 0
                &&& v.norm_sq() != 0 ==> {
                    &&& 0 < len
                    &&& -speed <= p <= speed
                    &&& -speed <= q <= speed
                    &&& p * p + q * q <= speed * speed
                    &&& speed >= 3 ==> (speed - 3) * (speed - 3) <= p * p + q * q
                    &&& self.is_shallow() ==> (v.x * p + v.y * q) + 2 * (magnitude(v.x as int)
                        + magnitude(v.y as int)) >= magnitude(v.x * q - v.y * p)
                }
            }),
    {
        v.lemma_components_within(LIMIT as int);
        v.lemma_norm_sq_bound();
        lemma_product_bound(self.cos as int, v.x as int, UNIT as int, LIMIT as int);
        lemma_product_bound(self.sin as int, v.y as int, UNIT as int, LIMIT as int);
        lemma_product_bound(self.sin as int, v.x as int, UNIT as int, LIMIT as int);
        lemma_product_bound(self.cos as int, v.y as int, UNIT as int, LIMIT as int);
        lemma_turn_identities(self.cos as int, self.sin as int, v.x as int, v.y as int);
        let x = self.cos * v.x - self.sin * v.y;
        let y = self.sin * v.x + self.cos * v.y;
        let n = v.norm_sq();
        let hh = self.cos * self.cos + self.sin * self.sin;
        lemma_floor_sqrt_exists(n);
        let speed = floor_sqrt(n);
        lemma_product_bound(x, x, 2 * (UNIT * LIMIT), 2 * (UNIT * LIMIT));
        lemma_product_bound(y, y, 2 * (UNIT * LIMIT), 2 * (UNIT * LIMIT));
        lemma_negated_square(x);
        lemma_negated_square(y);
        assert((2 * (UNIT * LIMIT)) * (2 * (UNIT * LIMIT)) == 4 * (UNIT * LIMIT) * (UNIT * LIMIT))
            by (nonlinear_arith);
        assert(speed <= LIMIT) by {
            if speed > LIMIT {
                lemma_square_monotone(LIMIT + 1, speed);
            }
        }
        assert(hh * n >= n && (n == 0 ==> hh * n == 0) && (n > 0 ==> hh * n > 0))
            by (nonlinear_arith)
            requires
                hh >= 1,
                n >= 0,
        ;
        assert((x == 0 && y == 0) <==> x * x + y * y == 0) by (nonlinear_arith);
        if n != 0 {
            let square = x * x + y * y;
            lemma_ceil_sqrt(square);
            let len = ceil_sqrt(square);
            assert(len >= speed) by {
                if len < speed {
                    lemma_square_monotone(len + 1, speed);
                    assert((len + 1) * (len + 1) > len * len) by (nonlinear_arith)
                        requires
                            len > 0,
                    ;
                }
            }
            let p = quotient(x * speed, len);
            let q = quotient(y * speed, len);
            assert(x * (speed * 1) == x * speed);
            assert(y * (speed * 1) == y * speed);
            assert(square * (1 * 1) == square) by (nonlinear_arith);
            lemma_scaled_norm(x, y, speed, 1, len, p, q);
            if speed >= 3 {
                lemma_scaled_norm_lower(x, y, speed, 1, len, p, q);
            }
            lemma_negated_square(p);
            lemma_negated_square(q);
            lemma_negated_square(speed);
            if magnitude(p) > speed {
                lemma_square_monotone(speed + 1, magnitude(p));
                assert((speed + 1) * (speed + 1) > speed * speed) by (nonlinear_arith)
                    requires
                        speed >= 0,
                ;
            }
            if magnitude(q) > speed {
                lemma_square_monotone(speed + 1, magnitude(q));
                assert((speed + 1) * (speed + 1) > speed * speed) by (nonlinear_arith)
                    requires
                        speed >= 0,
                ;
            }
            if self.is_shallow() {
                lemma_turn_within_eighth(
                    self.cos as int,
                    self.sin as int,
                    v.x as int,
                    v.y as int,
                    speed,
                    len,
                    p,
                    q,
                );
            }
        }
    }

    /// A vector turned by a heading is no longer than the vector, shorter by less than
    /// three units beyond the rounding of its length, and, for a shallow heading, within
    /// an eighth of a turn of the vector.
    pub proof fn lemma_turn(self, v: Vec2)
        requires
            self.is_unit(),
            v.no_faster_than(LIMIT as int),
        ensures
            ({
                let r = self.spec_turn(v);
                &&& r.norm_sq() <= v.norm_sq()
                &&& r.no_slower_than(floor_sqrt(v.norm_sq()) - 3)
                &&& self.is_shallow() ==> v.within_eighth_turn(r)
                &&& r.no_faster_than(LIMIT as int)
                &&& r.in_bounds()
            }),
    {
        self.lemma_turned_components(v);
        v.lemma_components_within(LIMIT as int);
        v.lemma_norm_sq_bound();
        if v.norm_sq() == 0 {
            lemma_negated_square(0);
            lemma_floor_sqrt_unique(0, 0);
            let zero = Vec2 { x: 0, y: 0 };
            assert(zero.norm_sq() == 0);
            assert(LIMIT * LIMIT >= 0);
            assert(v.dot(zero) == 0 && v.cross(zero) == 0) by (nonlinear_arith)
                requires
                    zero.x == 0,
                    zero.y == 0,
            ;
        } else {
            let r = self.spec_turn(v);
            lemma_square_monotone(floor_sqrt(v.norm_sq()), LIMIT as int);
            r.lemma_components_within(LIMIT as int);
        }
    }

    /// The vector `v` turned by the angle of this heading.
    ///
    /// The result is no longer than `v`, shorter by less than three units beyond the
    /// rounding of the length of `v`, and, for a shallow heading, within an eighth of a
    /// turn of `v`.
    pub fn turn(self, v: Vec2) -> (r: Vec2)
        requires
            self.is_unit(),
            v.no_faster_than(LIMIT as int),
        ensures
            r == self.spec_turn(v),
            r.norm_sq() <= v.norm_sq(),
            r.no_slower_than(floor_sqrt(v.norm_sq()) - 3),
            self.is_shallow() ==> v.within_eighth_turn(r),
            r.no_faster_than(LIMIT as int),
            r.in_bounds(),
    {
        proof {
            self.lemma_turn(v);
            self.lemma_turned_components(v);
            v.lemma_components_within(LIMIT as int);
            lemma_product_bound(self.cos as int, v.x as int, UNIT as int, LIMIT as int);
            lemma_product_bound(self.sin as int, v.y as int, UNIT as int, LIMIT as int);
            lemma_product_bound(self.sin as int, v.x as int, UNIT as int, LIMIT as int);
            lemma_product_bound(self.cos as int, v.y as int, UNIT as int, LIMIT as int);
        }
        let x: i64 = self.cos * v.x - self.sin * v.y;
        let y: i64 = self.sin * v.x + self.cos * v.y;
        if x == 0 && y == 0 {
            return Vec2 { x: 0, y: 0 };
        }
        let speed: i64 = v.length();
        let wide_x: i128 = x as i128;
        let wide_y: i128 = y as i128;
        proof {
            lemma_product_bound(x as int, x as int, 2 * (UNIT * LIMIT), 2 * (UNIT * LIMIT));
            lemma_product_bound(y as int, y as int, 2 * (UNIT * LIMIT), 2 * (UNIT * LIMIT));
        }
        let square: u128 = (wide_x * wide_x + wide_y * wide_y) as u128;
        let len: i128 = isqrt_ceil(square) as i128;
        proof {
            lemma_product_bound(x as int, speed as int, 2 * (UNIT * LIMIT), LIMIT as int);
            lemma_product_bound(y as int, speed as int, 2 * (UNIT * LIMIT), LIMIT as int);
        }
        let px: i128 = wide_x * (speed as i128) / len;
        let py: i128 = wide_y * (speed as i128) / len;
        Vec2 { x: px as i64, y: py as i64 }
    }
}

} // verus!
