//! Two-dimensional integer vectors: positions in thousandths of a pixel and
//! velocities in thousandths of a pixel per second.

use vstd::prelude::*;
use crate::numeric::{
    ceil_sqrt, clamp_i128, clamped, floor_sqrt, isqrt, isqrt_ceil, lemma_ceil_sqrt,
    lemma_negated_square, lemma_product_bound, lemma_square_monotone, magnitude, quotient, LIMIT,
};

verus! {

/// A point or a displacement of the plane.
#[derive(Clone, Copy, Debug, PartialEq, Eq, Structural)]
pub struct Vec2 {
    pub x: i64,
    pub y: i64,
}

/// `|p|` is the quotient, rounded toward zero, of `|a| * f` by `len`, so `|p| * len` stays
/// below `|a| * f`.
pub(crate) proof fn lemma_quotient_magnitude(a: int, f: int, len: int, p: int)
    requires
        f >= 0,
        len > 0,
        p == quotient(a * f, len),
    ensures
        0 <= magnitude(p) * len <= magnitude(a) * f,
        magnitude(a) * f < (magnitude(p) + 1) * len,
        a >= 0 ==> p >= 0,
        a <= 0 ==> p <= 0,
{
    let m = magnitude(a) * f;
    assert(m >= 0) by (nonlinear_arith)
        requires
            m == magnitude(a) * f,
            magnitude(a) >= 0,
            f >= 0,
    ;
    assert(a >= 0 ==> a * f == m);
    assert(a < 0 ==> -(a * f) == m) by (nonlinear_arith)
        requires
            m == magnitude(a) * f,
            a < 0 ==> magnitude(a) == -a,
    ;
    assert(a * f >= 0 ==> a * f == m) by (nonlinear_arith)
        requires
            a >= 0 ==> a * f == m,
            a < 0 ==> -(a * f) == m,
            m >= 0,
    ;
    assert(a * f < 0 ==> -(a * f) == m);
    let q = m / len;
    assert(0 <= q * len <= m && m < (q + 1) * len) by (nonlinear_arith)
        requires
            q == m / len,
            m >= 0,
            len > 0,
    ;
    assert(q >= 0) by (nonlinear_arith)
        requires
            q == m / len,
            m >= 0,
            len > 0,
    ;
    assert(magnitude(p) == q);
}

/// Two components shrunk by rounded division to length `t` have a norm of at most `t`.
pub(crate) proof fn lemma_scaled_norm(a: int, b: int, t: int, k: int, len: int, p: int, q: int)
    requires
        k > 0,
        t >= 0,
        len > 0,
        len * len >= (a * a + b * b) * (k * k),
        p == quotient(a * (t * k), len),
        q == quotient(b * (t * k), len),
    ensures
        p * p + q * q <= t * t,
{
    let f = t * k;
    assert(f >= 0) by (nonlinear_arith)
        requires
            f == t * k,
            t >= 0,
            k > 0,
    ;
    lemma_quotient_magnitude(a, f, len, p);
    lemma_quotient_magnitude(b, f, len, q);
    let pm = magnitude(p);
    let qm = magnitude(q);
    let am = magnitude(a);
    let bm = magnitude(b);
    lemma_square_monotone(pm * len, am * f);
    lemma_square_monotone(qm * len, bm * f);
    assert(pm * pm == p * p && qm * qm == q * q && am * am == a * a && bm * bm == b * b)
        by (nonlinear_arith)
        requires
            pm == magnitude(p),
            qm == magnitude(q),
            am == magnitude(a),
            bm == magnitude(b),
    ;
    let ll = len * len;
    let s = p * p + q * q;
    assert(ll * s == (pm * len) * (pm * len) + (qm * len) * (qm * len)) by (nonlinear_arith)
        requires
            ll == len * len,
            s == p * p + q * q,
            pm * pm == p * p,
            qm * qm == q * q,
    ;
    let ff = f * f;
    let kk = k * k;
    let tt = t * t;
    let nn = a * a + b * b;
    assert(ff == kk * tt) by (nonlinear_arith)
        requires
            f == t * k,
            ff == f * f,
            kk == k * k,
            tt == t * t,
    ;
    assert((am * f) * (am * f) == (a * a) * ff) by (nonlinear_arith)
        requires
            am * am == a * a,
            ff == f * f,
    ;
    assert((bm * f) * (bm * f) == (b * b) * ff) by (nonlinear_arith)
        requires
            bm * bm == b * b,
            ff == f * f,
    ;
    assert((a * a) * ff + (b * b) * ff == nn * ff) by (nonlinear_arith)
        requires
            nn == a * a + b * b,
    ;
    assert(nn * ff == nn * kk * tt) by (nonlinear_arith)
        requires
            ff == kk * tt,
    ;
    assert(tt >= 0) by (nonlinear_arith)
        requires
            tt == t * t,
    ;
    assert(ll > 0) by (nonlinear_arith)
        requires
            ll == len * len,
            len > 0,
    ;
    assert(nn * kk * tt <= ll * tt) by (nonlinear_arith)
        requires
            ll >= nn * kk,
            tt >= 0,
    ;
    assert(s <= tt) by (nonlinear_arith)
        requires
            ll * s <= ll * tt,
            ll > 0,
    ;
}

/// Two components stretched by rounded division to length `t` fall short of `t` by less than
/// three units, when the divisor is the rounded-up root of the scaled squared length and is
/// no smaller than `t`.
pub(crate) proof fn lemma_scaled_norm_lower(a: int, b: int, t: int, k: int, len: int, p: int, q: int)
    requires
        3 <= t <= len,
        k > 0,
        a * a + b * b > 0,
        len > 0,
        len * len >= (a * a + b * b) * (k * k),
        (len - 1) * (len - 1) < (a * a + b * b) * (k * k),
        p == quotient(a * (t * k), len),
        q == quotient(b * (t * k), len),
    ensures
        (t - 3) * (t - 3) <= p * p + q * q,
{
    let f = t * k;
    assert(f >= 0) by (nonlinear_arith)
        requires
            f == t * k,
            t >= 0,
            k > 0,
    ;
    lemma_quotient_magnitude(a, f, len, p);
    lemma_quotient_magnitude(b, f, len, q);
    let pm = magnitude(p);
    let qm = magnitude(q);
    let am = magnitude(a);
    let bm = magnitude(b);
    assert(am * f >= 0 && bm * f >= 0) by (nonlinear_arith)
        requires
            am >= 0,
            bm >= 0,
            f >= 0,
    ;
    lemma_square_monotone(am * f + 1, (pm + 1) * len);
    lemma_square_monotone(bm * f + 1, (qm + 1) * len);
    assert(pm * pm == p * p && qm * qm == q * q && am * am == a * a && bm * bm == b * b)
        by (nonlinear_arith)
        requires
            pm == magnitude(p),
            qm == magnitude(q),
            am == magnitude(a),
            bm == magnitude(b),
    ;
    let ll = len * len;
    let ff = f * f;
    let kk = k * k;
    let tt = t * t;
    let nn = a * a + b * b;
    let u = (pm + 1) * (pm + 1) + (qm + 1) * (qm + 1);
    assert(((pm + 1) * len) * ((pm + 1) * len) + ((qm + 1) * len) * ((qm + 1) * len) == ll * u)
        by (nonlinear_arith)
        requires
            ll == len * len,
            u == (pm + 1) * (pm + 1) + (qm + 1) * (qm + 1),
    ;
    assert((am * f + 1) * (am * f + 1) > (am * f) * (am * f)) by (nonlinear_arith)
        requires
            am * f >= 0,
    ;
    assert((bm * f + 1) * (bm * f + 1) > (bm * f) * (bm * f)) by (nonlinear_arith)
        requires
            bm * f >= 0,
    ;
    assert(ff == kk * tt) by (nonlinear_arith)
        requires
            f == t * k,
            ff == f * f,
            kk == k * k,
            tt == t * t,
    ;
    assert((am * f) * (am * f) == (a * a) * ff) by (nonlinear_arith)
        requires
            am * am == a * a,
            ff == f * f,
    ;
    assert((bm * f) * (bm * f) == (b * b) * ff) by (nonlinear_arith)
        requires
            bm * bm == b * b,
            ff == f * f,
    ;
    assert((a * a) * ff + (b * b) * ff == nn * ff) by (nonlinear_arith)
        requires
            nn == a * a + b * b,
    ;
    assert(nn * ff == nn * kk * tt) by (nonlinear_arith)
        requires
            ff == kk * tt,
    ;
    assert(ll * u > nn * kk * tt);
    let mm = (len - 1) * (len - 1);
    assert(tt >= 9) by (nonlinear_arith)
        requires
            tt == t * t,
            t >= 3,
    ;
    assert(nn * kk * tt >= mm * tt) by (nonlinear_arith)
        requires
            mm < nn * kk,
            tt >= 0,
    ;
    assert((len - 1) * t >= len * (t - 1) && len * (t - 1) >= 0) by (nonlinear_arith)
        requires
            len >= t,
            t >= 3,
    ;
    lemma_square_monotone(len * (t - 1), (len - 1) * t);
    let w = (t - 1) * (t - 1);
    assert(((len - 1) * t) * ((len - 1) * t) == mm * tt) by (nonlinear_arith)
        requires
            mm == (len - 1) * (len - 1),
            tt == t * t,
    ;
    assert((len * (t - 1)) * (len * (t - 1)) == ll * w) by (nonlinear_arith)
        requires
            ll == len * len,
            w == (t - 1) * (t - 1),
    ;
    assert(ll * u > ll * w);
    assert(u > w) by (nonlinear_arith)
        requires
            ll * u > ll * w,
            ll > 0,
    ;
    let s = p * p + q * q;
    let d = t - 3;
    assert(d * d <= s) by {
        if s < d * d {
            if pm >= d {
                lemma_square_monotone(d, pm);
                lemma_negated_square(qm);
            }
            if qm >= d {
                lemma_square_monotone(d, qm);
                lemma_negated_square(pm);
            }
            assert(u == s + 2 * pm + 2 * qm + 2) by (nonlinear_arith)
                requires
                    u == (pm + 1) * (pm + 1) + (qm + 1) * (qm + 1),
                    s == p * p + q * q,
                    pm * pm == p * p,
                    qm * qm == q * q,
            ;
            assert(w == d * d + 4 * d + 4) by (nonlinear_arith)
                requires
                    w == (t - 1) * (t - 1),
                    d == t - 3,
            ;
        }
    }
}

/// Of two numerators divided by the same divisor, the one of smaller magnitude gives the
/// quotient of smaller magnitude.
pub(crate) proof fn lemma_quotient_order(a: int, b: int, f: int, len: int, p: int, q: int)
    requires
        f >= 0,
        len > 0,
        p == quotient(a * f, len),
        q == quotient(b * f, len),
        magnitude(b) <= magnitude(a),
    ensures
        magnitude(q) <= magnitude(p),
{
    lemma_quotient_magnitude(a, f, len, p);
    lemma_quotient_magnitude(b, f, len, q);
    let pm = magnitude(p);
    let qm = magnitude(q);
    assert(magnitude(b) * f <= magnitude(a) * f) by (nonlinear_arith)
        requires
            magnitude(b) <= magnitude(a),
            f >= 0,
    ;
    assert(qm < pm + 1) by (nonlinear_arith)
        requires
            qm * len < (pm + 1) * len,
            len > 0,
    ;
}

impl Vec2 {
    /// Both components lie within the stored range.
    pub open spec fn in_bounds(self) -> bool {
        -LIMIT <= self.x <= LIMIT && -LIMIT <= self.y <= LIMIT
    }

    /// Squared Euclidean length.
    pub open spec fn norm_sq(self) -> int {
        self.x * self.x + self.y * self.y
    }

    /// The Euclidean length is at most `speed`.
    pub open spec fn no_faster_than(self, speed: int) -> bool {
        self.norm_sq() <= speed * speed
    }

    /// The Euclidean length is at least `speed`.
    pub open spec fn no_slower_than(self, speed: int) -> bool {
        speed <= 0 || self.norm_sq() >= speed * speed
    }

    /// This vector stretched or shrunk to length `target`, each component rounded toward
    /// zero; the zero vector has no direction and stays as it is.
    pub open spec fn spec_scaled_to(self, target: int) -> Vec2 {
        if self.norm_sq() == 0 {
            self
        } else {
            let len = ceil_sqrt(self.norm_sq() * (LIMIT * LIMIT));
            Vec2 {
                x: quotient(self.x * (target * LIMIT), len) as i64,
                y: quotient(self.y * (target * LIMIT), len) as i64,
            }
        }
    }

    /// This point after moving at `velocity` for `micros` microseconds, each component
    /// rounded toward zero and kept within the stored range.
    pub open spec fn spec_moved_by(self, velocity: Vec2, micros: int) -> Vec2 {
        let x = self.x + quotient(velocity.x * micros, 1_000_000);
        let y = self.y + quotient(velocity.y * micros, 1_000_000);
        Vec2 {
            x: clamped(x, -LIMIT as int, LIMIT as int) as i64,
            y: clamped(y, -LIMIT as int, LIMIT as int) as i64,
        }
    }

    /// This point after `steps` moves at `velocity`, each of `micros` microseconds.
    pub open spec fn spec_moved_in_steps(self, velocity: Vec2, micros: int, steps: nat) -> Vec2
        decreases steps,
    {
        if steps == 0 {
            self
        } else {
            self.spec_moved_in_steps(velocity, micros, (steps - 1) as nat).spec_moved_by(
                velocity,
                micros,
            )
        }
    }

    /// No component of this vector points against the same component of `other`.
    pub open spec fn same_quadrant(self, other: Vec2) -> bool {
        &&& other.x >= 0 ==> self.x >= 0
        &&& other.x <= 0 ==> self.x <= 0
        &&& other.y >= 0 ==> self.y >= 0
        &&& other.y <= 0 ==> self.y <= 0
    }

    /// Inner product.
    pub open spec fn dot(self, other: Vec2) -> int {
        self.x * other.x + self.y * other.y
    }

    /// Signed area spanned with `other`: positive when `other` lies counter-clockwise.
    pub open spec fn cross(self, other: Vec2) -> int {
        self.x * other.y - self.y * other.x
    }

    /// `other` points within an eighth of a turn of this vector, up to the rounding of one
    /// unit in each component of `other`.
    pub open spec fn within_eighth_turn(self, other: Vec2) -> bool {
        self.dot(other) + 2 * (magnitude(self.x as int) + magnitude(self.y as int)) >= magnitude(
            self.cross(other),
        )
    }

    /// Squared distance between two points.
    pub open spec fn spec_distance_squared(self, other: Vec2) -> int {
        (self.x - other.x) * (self.x - other.x) + (self.y - other.y) * (self.y - other.y)
    }

    pub fn new(x: i64, y: i64) -> (r: Vec2)
        ensures
            r.x == x,
            r.y == y,
    {
        Vec2 { x, y }
    }

    /// Whether both components lie within the stored range.
    pub fn is_in_bounds(&self) -> (inside: bool)
        ensures
            inside == self.in_bounds(),
    {
        -LIMIT <= self.x && self.x <= LIMIT && -LIMIT <= self.y && self.y <= LIMIT
    }

    /// A vector within the stored range has a squared length that fits a machine word.
    pub proof fn lemma_norm_sq_bound(self)
        requires
            self.in_bounds(),
        ensures
            0 <= self.x * self.x <= LIMIT * LIMIT,
            0 <= self.y * self.y <= LIMIT * LIMIT,
            0 <= self.norm_sq() <= 2 * (LIMIT * LIMIT),
            self.norm_sq() == 0 <==> self.x == 0 && self.y == 0,
    {
        lemma_product_bound(self.x as int, self.x as int, LIMIT as int, LIMIT as int);
        lemma_product_bound(self.y as int, self.y as int, LIMIT as int, LIMIT as int);
        assert(self.x * self.x >= 0 && (self.x != 0 ==> self.x * self.x > 0)) by (nonlinear_arith);
        assert(self.y * self.y >= 0 && (self.y != 0 ==> self.y * self.y > 0)) by (nonlinear_arith);
    }

    /// A vector no longer than `speed` has no component longer than `speed`.
    pub proof fn lemma_components_within(self, speed: int)
        requires
            0 <= speed,
            self.no_faster_than(speed),
        ensures
            -speed <= self.x <= speed,
            -speed <= self.y <= speed,
    {
        let ax = magnitude(self.x as int);
        let ay = magnitude(self.y as int);
        assert(ax * ax == self.x * self.x && ay * ay == self.y * self.y && ax * ax >= 0 && ay * ay
            >= 0) by (nonlinear_arith)
            requires
                ax == magnitude(self.x as int),
                ay == magnitude(self.y as int),
        ;
        if ax > speed {
            lemma_square_monotone(speed + 1, ax);
            assert((speed + 1) * (speed + 1) > speed * speed) by (nonlinear_arith)
                requires
                    speed >= 0,
            ;
        }
        if ay > speed {
            lemma_square_monotone(speed + 1, ay);
            assert((speed + 1) * (speed + 1) > speed * speed) by (nonlinear_arith)
                requires
                    speed >= 0,
            ;
        }
    }

    /// Squared Euclidean length.
    pub fn length_squared(&self) -> (n: i64)
        requires
            self.in_bounds(),
        ensures
            n == self.norm_sq(),
    {
        proof {
            self.lemma_norm_sq_bound();
        }
        self.x * self.x + self.y * self.y
    }

    /// Euclidean length, rounded down.
    pub fn length(&self) -> (r: i64)
        requires
            self.in_bounds(),
        ensures
            r == floor_sqrt(self.norm_sq()),
            0 <= r,
            r * r <= self.norm_sq(),
            self.norm_sq() < (r + 1) * (r + 1),
    {
        let n: i64 = self.length_squared();
        proof {
            self.lemma_norm_sq_bound();
        }
        let root: u64 = isqrt(n as u128);
        assert(root <= 2 * LIMIT) by (nonlinear_arith)
            requires
                root * root <= 2 * (LIMIT * LIMIT),
                LIMIT == 1_000_000_000,
        ;
        root as i64
    }

    /// The components of a vector that is not zero, stretched or shrunk to `target`: they
    /// fit the stored range, their length is at most `target` and falls short of it by
    /// less than three units, and each keeps its sign and its rank in magnitude.
    proof fn lemma_scaled_components(self, target: int)
        requires
            self.in_bounds(),
            0 <= target <= LIMIT,
            self.norm_sq() != 0,
        ensures
            ({
                let len = ceil_sqrt(self.norm_sq() * (LIMIT * LIMIT));
                let p = quotient(self.x * (target * LIMIT), len);
                let q = quotient(self.y * (target * LIMIT), len);
                &&& 0 < len <= 2 * (LIMIT * LIMIT)
                &&& -target <= p <= target
                &&& -target <= q <= target
                &&& p * p + q * q <= target * target
                &&& target >= 3 ==> (target - 3) * (target - 3) <= p * p + q * q
                &&& self.x >= 0 ==> p >= 0
                &&& self.x <= 0 ==> p <= 0
                &&& self.y >= 0 ==> q >= 0
                &&& self.y <= 0 ==> q <= 0
                &&& magnitude(self.y as int) <= magnitude(self.x as int) ==> magnitude(q)
                    <= magnitude(p)
                &&& magnitude(self.x as int) <= magnitude(self.y as int) ==> magnitude(p)
                    <= magnitude(q)
            }),
    {
        self.lemma_norm_sq_bound();
        let n = self.norm_sq();
        let unit = LIMIT * LIMIT;
        let wide = n * unit;
        assert(unit <= wide <= 2 * unit * unit) by (nonlinear_arith)
            requires
                wide == n * unit,
                1 <= n <= 2 * unit,
                unit >= 0,
        ;
        lemma_ceil_sqrt(wide);
        let len = ceil_sqrt(wide);
        assert(len <= 2 * unit) by {
            if len > 2 * unit {
                lemma_square_monotone(2 * unit, len - 1);
                assert((2 * unit) * (2 * unit) >= 2 * unit * unit) by (nonlinear_arith)
                    requires
                        unit >= 0,
                ;
            }
        }
        let factor = target * LIMIT;
        lemma_product_bound(target, LIMIT as int, LIMIT as int, LIMIT as int);
        let p = quotient(self.x * factor, len);
        let q = quotient(self.y * factor, len);
        lemma_scaled_norm(self.x as int, self.y as int, target, LIMIT as int, len, p, q);
        lemma_quotient_magnitude(self.x as int, factor, len, p);
        lemma_quotient_magnitude(self.y as int, factor, len, q);
        if magnitude(self.y as int) <= magnitude(self.x as int) {
            lemma_quotient_order(self.x as int, self.y as int, factor, len, p, q);
        }
        if magnitude(self.x as int) <= magnitude(self.y as int) {
            lemma_quotient_order(self.y as int, self.x as int, factor, len, q, p);
        }
        if target >= 3 {
            assert(len >= target) by {
                if len < target {
                    lemma_square_monotone(len + 1, target);
                    lemma_square_monotone(target, LIMIT as int);
                    assert((len + 1) * (len + 1) > len * len) by (nonlinear_arith)
                        requires
                            len > 0,
                    ;
                }
            }
            lemma_scaled_norm_lower(self.x as int, self.y as int, target, LIMIT as int, len, p, q);
        }
        lemma_negated_square(p);
        lemma_negated_square(q);
        lemma_negated_square(target);
        if magnitude(p) > target {
            lemma_square_monotone(target + 1, magnitude(p));
            assert((target + 1) * (target + 1) > target * target) by (nonlinear_arith)
                requires
                    target >= 0,
            ;
        }
        if magnitude(q) > target {
            lemma_square_monotone(target + 1, magnitude(q));
            assert((target + 1) * (target + 1) > target * target) by (nonlinear_arith)
                requires
                    target >= 0,
            ;
        }
    }

    /// A vector stretched or shrunk to the length `target` is never longer than `target`
    /// and shorter by less than three units; it keeps its quadrant, and its steeper
    /// component stays the steeper one. The zero vector stays as it is.
    pub proof fn lemma_scaled_to(self, target: int)
        requires
            self.in_bounds(),
            0 <= target <= LIMIT,
        ensures
            ({
                let r = self.spec_scaled_to(target);
                &&& self.norm_sq() != 0 ==> r.no_faster_than(target) && r.no_slower_than(
                    target - 3,
                )
                &&& self.norm_sq() == 0 ==> r == self
                &&& r.in_bounds()
                &&& r.same_quadrant(self)
                &&& magnitude(self.y as int) <= magnitude(self.x as int) ==> magnitude(
                    r.y as int,
                ) <= magnitude(r.x as int)
                &&& magnitude(self.x as int) <= magnitude(self.y as int) ==> magnitude(
                    r.x as int,
                ) <= magnitude(r.y as int)
            }),
    {
        if self.norm_sq() != 0 {
            self.lemma_scaled_components(target);
        }
    }

    /// This vector stretched or shrunk to length `target`; the zero vector stays as it is.
    ///
    /// The result is never longer than `target`, and shorter by less than three units.
    pub fn scaled_to(&self, target: i64) -> (r: Vec2)
        requires
            self.in_bounds(),
            0 <= target <= LIMIT,
        ensures
            r == self.spec_scaled_to(target as int),
            self.norm_sq() != 0 ==> r.no_faster_than(target as int) && r.no_slower_than(
                target - 3,
            ),
            self.norm_sq() == 0 ==> r == *self,
            r.in_bounds(),
            r.same_quadrant(*self),
            magnitude(self.y as int) <= magnitude(self.x as int) ==> magnitude(r.y as int)
                <= magnitude(r.x as int),
            magnitude(self.x as int) <= magnitude(self.y as int) ==> magnitude(r.x as int)
                <= magnitude(r.y as int),
    {
        proof {
            self.lemma_norm_sq_bound();
            self.lemma_scaled_to(target as int);
        }
        if self.x == 0 && self.y == 0 {
            return *self;
        }
        let n: i64 = self.length_squared();
        let unit: u128 = 1_000_000_000_000_000_000;
        proof {
            self.lemma_scaled_components(target as int);
            assert(LIMIT * LIMIT == unit);
            assert(0 <= n * unit <= 2 * (LIMIT * LIMIT) * unit) by (nonlinear_arith)
                requires
                    0 <= n <= 2 * (LIMIT * LIMIT),
                    unit >= 0,
            ;
        }
        let wide: u128 = (n as u128) * unit;
        let len: i128 = isqrt_ceil(wide) as i128;
        let factor: i128 = (target as i128) * (LIMIT as i128);
        proof {
            lemma_product_bound(target as int, LIMIT as int, LIMIT as int, LIMIT as int);
            lemma_product_bound(self.x as int, factor as int, LIMIT as int, LIMIT * LIMIT);
            lemma_product_bound(self.y as int, factor as int, LIMIT as int, LIMIT * LIMIT);
        }
        let px: i128 = (self.x as i128) * factor / len;
        let py: i128 = (self.y as i128) * factor / len;
        proof {
            assert(px == quotient(self.x * (target * LIMIT), len as int));
            assert(py == quotient(self.y * (target * LIMIT), len as int));
        }
        Vec2 { x: px as i64, y: py as i64 }
    }

    /// This point after moving at `velocity` for `micros` microseconds.
    pub fn moved_by(&self, velocity: Vec2, micros: u64) -> (r: Vec2)
        ensures
            r == self.spec_moved_by(velocity, micros as int),
            r.in_bounds(),
    {
        proof {
            lemma_product_bound(
                velocity.x as int,
                micros as int,
                0x8000_0000_0000_0000,
                0xffff_ffff_ffff_ffff,
            );
            lemma_product_bound(
                velocity.y as int,
                micros as int,
                0x8000_0000_0000_0000,
                0xffff_ffff_ffff_ffff,
            );
        }
        let dx: i128 = (velocity.x as i128) * (micros as i128) / 1_000_000;
        let dy: i128 = (velocity.y as i128) * (micros as i128) / 1_000_000;
        Vec2 {
            x: clamp_i128(self.x as i128 + dx, -LIMIT, LIMIT),
            y: clamp_i128(self.y as i128 + dy, -LIMIT, LIMIT),
        }
    }

    /// Squared distance between two points.
    pub fn distance_squared(&self, other: Vec2) -> (d: i64)
        requires
            self.in_bounds(),
            other.in_bounds(),
        ensures
            d == self.spec_distance_squared(other),
            d >= 0,
    {
        let dx: i64 = self.x - other.x;
        let dy: i64 = self.y - other.y;
        proof {
            lemma_product_bound(dx as int, dx as int, 2 * LIMIT, 2 * LIMIT);
            lemma_product_bound(dy as int, dy as int, 2 * LIMIT, 2 * LIMIT);
            assert(dx * dx >= 0 && dy * dy >= 0) by (nonlinear_arith);
        }
        dx * dx + dy * dy
    }
}

} // verus!
