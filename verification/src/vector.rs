//! Two-dimensional vectors: the mathematical model and the machine type.

use crate::fixed::{
    ceil_sqrt, ceil_sqrt_u128, div_toward_zero, is_ceil_sqrt, lemma_product_bound,
    lemma_square_monotone, lemma_square_weakly_monotone, magnitude, scaled_product,
    LENGTH_TOLERANCE, MAX_MAGNITUDE, MAX_UNCLAMPED,
};
use vstd::prelude::*;

verus! {

/// A vector of two unbounded integers: the model that contracts speak of.
pub struct IntVector {
    pub x: int,
    pub y: int,
}

impl IntVector {
    pub open spec fn zero() -> IntVector {
        IntVector { x: 0, y: 0 }
    }

    pub open spec fn plus(self, other: IntVector) -> IntVector {
        IntVector { x: self.x + other.x, y: self.y + other.y }
    }

    pub open spec fn minus(self, other: IntVector) -> IntVector {
        IntVector { x: self.x - other.x, y: self.y - other.y }
    }

    pub open spec fn negated(self) -> IntVector {
        IntVector { x: -self.x, y: -self.y }
    }

    /// The square of the length.
    pub open spec fn norm_sq(self) -> int {
        self.x * self.x + self.y * self.y
    }

    /// Whether neither component exceeds `bound` in magnitude.
    pub open spec fn within(self, bound: int) -> bool {
        &&& -bound <= self.x <= bound
        &&& -bound <= self.y <= bound
    }

    /// The vector multiplied by the fixed-point factor `c`.
    pub open spec fn scaled(self, c: int) -> IntVector {
        IntVector { x: scaled_product(c, self.x), y: scaled_product(c, self.y) }
    }

    /// The vector divided by the positive integer `d`.
    pub open spec fn divided(self, d: int) -> IntVector {
        IntVector { x: div_toward_zero(self.x, d), y: div_toward_zero(self.y, d) }
    }

    /// The vector of length `t` in the direction of `self`.
    ///
    /// Each component is rounded toward zero, so the result is never longer
    /// than `t`. A vector shorter than `t` is first multiplied by `t`, which
    /// keeps its direction and makes the rounded root precise enough. The zero
    /// vector has no direction: it is taken to point along the positive y axis.
    pub open spec fn scaled_to(self, t: int) -> IntVector {
        if t <= 0 {
            IntVector::zero()
        } else if self == IntVector::zero() {
            IntVector { x: 0, y: t }
        } else {
            let m = if self.norm_sq() >= t * t {
                1
            } else {
                t
            };
            let a = self.x * m;
            let b = self.y * m;
            let l = ceil_sqrt(a * a + b * b);
            IntVector { x: div_toward_zero(a * t, l), y: div_toward_zero(b * t, l) }
        }
    }

    /// The vector with its length brought into `[min, max]`: unchanged where
    /// the length lies in that range, else rescaled to the nearer end.
    pub open spec fn clamped(self, min: int, max: int) -> IntVector {
        if self.norm_sq() < min * min {
            self.scaled_to(min)
        } else if self.norm_sq() > max * max {
            self.scaled_to(max)
        } else {
            self
        }
    }

    /// Whether the length lies in `[min, max]`, short of `min` by no more than
    /// the rounding of a rescaling.
    pub open spec fn length_in(self, min: int, max: int) -> bool {
        &&& self.norm_sq() <= max * max
        &&& min > LENGTH_TOLERANCE ==> self.norm_sq() >= (min - LENGTH_TOLERANCE) * (min
            - LENGTH_TOLERANCE)
    }
}

/// The square of the distance between two points.
pub open spec fn dist_sq(a: IntVector, b: IntVector) -> int {
    a.minus(b).norm_sq()
}

/// Whether two points are less than `radius` apart.
pub open spec fn closer_than(a: IntVector, b: IntVector, radius: int) -> bool {
    dist_sq(a, b) < radius * radius
}

/// Whether two points are more than `radius` apart.
pub open spec fn farther_than(a: IntVector, b: IntVector, radius: int) -> bool {
    dist_sq(a, b) > radius * radius
}

proof fn lemma_square_of_product(x: int, y: int)
    by (nonlinear_arith)
    ensures
        (x * y) * (x * y) == (x * x) * (y * y),
{
}

proof fn lemma_cancel_le(x: int, y: int, k: int)
    by (nonlinear_arith)
    requires
        k > 0,
        x * k <= y * k,
    ensures
        x <= y,
{
}

proof fn lemma_cancel_lt(x: int, y: int, k: int)
    by (nonlinear_arith)
    requires
        k > 0,
        x * k < y * k,
    ensures
        x < y,
{
}

proof fn lemma_floor_quotient(p: int, l: int)
    by (nonlinear_arith)
    requires
        p >= 0,
        l > 0,
    ensures
        0 <= p / l,
        (p / l) * l <= p < (p / l + 1) * l,
{
}

/// The square of a quotient rounded toward zero is that of the magnitudes.
proof fn lemma_rounded_magnitude(a: int, t: int, l: int)
    by (nonlinear_arith)
    requires
        t >= 1,
        l >= 1,
    ensures
        magnitude(div_toward_zero(a * t, l)) == (magnitude(a) * t) / l,
        div_toward_zero(a * t, l) * div_toward_zero(a * t, l) == ((magnitude(a) * t) / l) * ((
        magnitude(a) * t) / l),
        a >= 0 ==> div_toward_zero(a * t, l) >= 0,
        a <= 0 ==> div_toward_zero(a * t, l) <= 0,
{
    if a >= 0 {
        assert(a * t >= 0);
        assert(magnitude(a) * t == a * t);
    } else {
        assert(a * t < 0);
        assert(magnitude(a) * t == -(a * t));
    }
}

/// One component of the upper bound: `(u l)^2 <= (a t)^2`, written out.
proof fn lemma_component_upper(u: int, l: int, a: int, t: int)
    requires
        0 <= u,
        0 < l,
        u * l <= a * t,
    ensures
        (u * u) * (l * l) <= (a * a) * (t * t),
{
    assert(0 <= u * l) by (nonlinear_arith)
        requires
            0 <= u,
            0 < l,
    ;
    lemma_square_weakly_monotone(u * l, a * t);
    lemma_square_of_product(u, l);
    lemma_square_of_product(a, t);
}

/// One component of the lower bound: `((u + 1) l)^2 > (a t)^2`, written out.
proof fn lemma_component_lower(u: int, l: int, a: int, t: int)
    requires
        0 <= a,
        0 <= t,
        a * t < (u + 1) * l,
    ensures
        (a * a) * (t * t) < ((u + 1) * (u + 1)) * (l * l),
{
    assert(0 <= a * t) by (nonlinear_arith)
        requires
            0 <= a,
            0 <= t,
    ;
    lemma_square_monotone(a * t, (u + 1) * l);
    lemma_square_of_product(u + 1, l);
    lemma_square_of_product(a, t);
}

/// A vector of naturals whose successor in both components is longer than
/// `t - 1` is itself no shorter than `t - 3`.
proof fn lemma_successor_length(u: int, w: int, t: int)
    requires
        0 <= u,
        0 <= w,
        t >= 3,
        (u + 1) * (u + 1) + (w + 1) * (w + 1) > (t - 1) * (t - 1),
    ensures
        u * u + w * w >= (t - 3) * (t - 3),
{
    let r = t - 3;
    let s = u * u + w * w;
    if s < r * r {
        assert(2 * (u * w) <= s) by (nonlinear_arith)
            requires
                s == u * u + w * w,
        ;
        assert((u + w) * (u + w) == s + 2 * (u * w)) by (nonlinear_arith)
            requires
                s == u * u + w * w,
        ;
        assert(u + w <= 2 * r) by (nonlinear_arith)
            requires
                (u + w) * (u + w) < 2 * (r * r),
                r >= 0,
                u + w >= 0,
        ;
        assert((u + 1) * (u + 1) + (w + 1) * (w + 1) == s + 2 * (u + w) + 2) by (nonlinear_arith)
            requires
                s == u * u + w * w,
        ;
        assert((t - 1) * (t - 1) == r * r + 4 * r + 4) by (nonlinear_arith)
            requires
                r == t - 3,
        ;
    }
}

/// The length of a vector whose components were scaled by `t / l` and rounded
/// toward zero, where `l` is the rounded-up length of `(a, b)` and `l >= t`.
proof fn lemma_rounded_length(a: int, b: int, t: int, l: int)
    requires
        t >= 1,
        l >= t,
        is_ceil_sqrt(a * a + b * b, l),
    ensures
        ({
            let u = div_toward_zero(a * t, l);
            let w = div_toward_zero(b * t, l);
            &&& u * u + w * w <= t * t
            &&& t >= 3 ==> u * u + w * w >= (t - 3) * (t - 3)
            &&& -t <= u <= t
            &&& -t <= w <= t
            &&& a >= 0 ==> u >= 0
            &&& a <= 0 ==> u <= 0
            &&& b >= 0 ==> w >= 0
            &&& b <= 0 ==> w <= 0
        }),
{
    let ma = magnitude(a);
    let mb = magnitude(b);
    let u = (ma * t) / l;
    let w = (mb * t) / l;
    lemma_rounded_magnitude(a, t, l);
    lemma_rounded_magnitude(b, t, l);
    assert(ma * t >= 0 && mb * t >= 0) by (nonlinear_arith)
        requires
            ma >= 0,
            mb >= 0,
            t >= 1,
    ;
    lemma_floor_quotient(ma * t, l);
    lemma_floor_quotient(mb * t, l);
    assert(ma * ma == a * a && mb * mb == b * b) by (nonlinear_arith)
        requires
            ma == magnitude(a),
            mb == magnitude(b),
    ;
    let n = a * a + b * b;
    let ll = l * l;
    let tt = t * t;
    assert(ll > 0 && tt > 0) by (nonlinear_arith)
        requires
            l >= 1,
            t >= 1,
            ll == l * l,
            tt == t * t,
    ;
    // The upper bound.
    lemma_component_upper(u, l, ma, t);
    lemma_component_upper(w, l, mb, t);
    assert((u * u + w * w) * ll <= tt * ll) by (nonlinear_arith)
        requires
            (u * u) * ll <= (ma * ma) * tt,
            (w * w) * ll <= (mb * mb) * tt,
            ma * ma + mb * mb <= ll,
            tt > 0,
    ;
    lemma_cancel_le(u * u + w * w, tt, ll);
    assert(-t <= u <= t && -t <= w <= t) by (nonlinear_arith)
        requires
            u * u + w * w <= t * t,
            t >= 1,
            u >= 0,
            w >= 0,
    ;
    // The lower bound.
    lemma_component_lower(u, l, ma, t);
    lemma_component_lower(w, l, mb, t);
    let x = (u + 1) * (u + 1) + (w + 1) * (w + 1);
    let lm = (l - 1) * (l - 1);
    assert(x * ll > lm * tt) by (nonlinear_arith)
        requires
            (ma * ma) * tt < ((u + 1) * (u + 1)) * ll,
            (mb * mb) * tt < ((w + 1) * (w + 1)) * ll,
            x == (u + 1) * (u + 1) + (w + 1) * (w + 1),
            lm < ma * ma + mb * mb,
            tt > 0,
    ;
    assert(0 <= l * (t - 1) <= (l - 1) * t) by (nonlinear_arith)
        requires
            l >= t,
            t >= 1,
    ;
    lemma_square_weakly_monotone(l * (t - 1), (l - 1) * t);
    lemma_square_of_product(l, t - 1);
    lemma_square_of_product(l - 1, t);
    assert(((t - 1) * (t - 1)) * ll < x * ll) by (nonlinear_arith)
        requires
            ll * ((t - 1) * (t - 1)) <= lm * tt,
            lm * tt < x * ll,
    ;
    lemma_cancel_lt((t - 1) * (t - 1), x, ll);
    if t >= 3 {
        lemma_successor_length(u, w, t);
    }
}

/// The rounded-up root of a positive number is positive, and at least `t`
/// where the number is at least `t * t`.
proof fn lemma_ceil_sqrt_lower(n: int, t: int)
    requires
        n >= 1,
        t >= 0,
        n >= t * t,
    ensures
        is_ceil_sqrt(n, ceil_sqrt(n)),
        ceil_sqrt(n) >= 1,
        ceil_sqrt(n) >= t,
{
    lemma_ceil_sqrt_exists(n);
    let l = ceil_sqrt(n);
    if l < t {
        lemma_square_monotone(l, t);
    }
    assert(l >= 1) by (nonlinear_arith)
        requires
            l >= 0,
            n <= l * l,
            n >= 1,
    ;
}

/// Every number has a rounded-up square root.
pub proof fn lemma_ceil_sqrt_exists(n: int)
    ensures
        is_ceil_sqrt(n, ceil_sqrt(n)),
    decreases n,
{
    if n <= 0 {
        assert(is_ceil_sqrt(n, 0));
    } else {
        lemma_ceil_sqrt_exists(n - 1);
        let r = ceil_sqrt(n - 1);
        if n <= r * r {
            assert(is_ceil_sqrt(n, r));
        } else {
            assert((r + 1) * (r + 1) >= r * r + 1) by (nonlinear_arith)
                requires
                    r >= 0,
            ;
            assert(is_ceil_sqrt(n, r + 1));
        }
    }
}

/// A rescaled vector is no longer than asked for, shorter by less than
/// [`LENGTH_TOLERANCE`] units, and points into the same quadrant.
pub proof fn lemma_scaled_to_length(v: IntVector, t: int)
    requires
        t >= 0,
    ensures
        v.scaled_to(t).norm_sq() <= t * t,
        t >= LENGTH_TOLERANCE ==> v.scaled_to(t).norm_sq() >= (t - LENGTH_TOLERANCE) * (t
            - LENGTH_TOLERANCE),
        v.scaled_to(t).within(t),
        v.x > 0 ==> v.scaled_to(t).x >= 0,
        v.x < 0 ==> v.scaled_to(t).x <= 0,
        v.y < 0 ==> v.scaled_to(t).y <= 0,
{
    if t == 0 {
    } else if v == IntVector::zero() {
        assert(t * t - (t - 3) * (t - 3) == 6 * t - 9) by (nonlinear_arith);
    } else {
        let m = if v.norm_sq() >= t * t {
            1
        } else {
            t
        };
        let a = v.x * m;
        let b = v.y * m;
        let n = a * a + b * b;
        assert(n == v.norm_sq() * (m * m)) by (nonlinear_arith)
            requires
                n == a * a + b * b,
                a == v.x * m,
                b == v.y * m,
        ;
        assert(v.norm_sq() >= 1) by (nonlinear_arith)
            requires
                v.x != 0 || v.y != 0,
        ;
        assert(n >= t * t && n >= 1) by (nonlinear_arith)
            requires
                n == v.norm_sq() * (m * m),
                v.norm_sq() >= 1,
                t >= 1,
                m == 1 && v.norm_sq() >= t * t || m == t,
        ;
        lemma_ceil_sqrt_lower(n, t);
        lemma_rounded_length(a, b, t, ceil_sqrt(n));
        assert(v.x > 0 ==> a >= 0) by (nonlinear_arith)
            requires
                a == v.x * m,
                m >= 1,
        ;
        assert(v.x < 0 ==> a <= 0) by (nonlinear_arith)
            requires
                a == v.x * m,
                m >= 1,
        ;
        assert(v.y < 0 ==> b <= 0) by (nonlinear_arith)
            requires
                b == v.y * m,
                m >= 1,
        ;
    }
}

/// What a division rounded toward zero leaves over is smaller than the
/// divisor.
proof fn lemma_rounded_remainder(p: int, l: int)
    by (nonlinear_arith)
    requires
        l > 0,
    ensures
        -l < p - div_toward_zero(p, l) * l < l,
{
}

/// The cross product of two vectors of which one has small components.
proof fn lemma_cross_bound(rx: int, ry: int, a: int, b: int, l: int)
    by (nonlinear_arith)
    requires
        l > 0,
        -l < rx < l,
        -l < ry < l,
    ensures
        -(l * (magnitude(a) + magnitude(b))) <= ry * a - rx * b <= l * (magnitude(a) + magnitude(
            b,
        )),
{
}

/// A rescaled vector is parallel to the vector it came from, up to the
/// rounding of its components: their cross product is no more than the sum of
/// the magnitudes of the components of the latter.
pub proof fn lemma_scaled_to_direction(v: IntVector, t: int)
    requires
        t >= 0,
    ensures
        -(magnitude(v.x) + magnitude(v.y)) <= v.scaled_to(t).x * v.y - v.scaled_to(t).y * v.x
            <= magnitude(v.x) + magnitude(v.y),
{
    let r = v.scaled_to(t);
    if t == 0 {
        assert(r == IntVector::zero());
        assert(r.x * v.y == 0 && r.y * v.x == 0) by (nonlinear_arith)
            requires
                r.x == 0,
                r.y == 0,
        ;
    } else if v == IntVector::zero() {
        assert(r.x * v.y == 0 && r.y * v.x == 0) by (nonlinear_arith)
            requires
                v.x == 0,
                v.y == 0,
        ;
    } else {
        let m = if v.norm_sq() >= t * t {
            1
        } else {
            t
        };
        let a = v.x * m;
        let b = v.y * m;
        let n = a * a + b * b;
        assert(n >= 1) by (nonlinear_arith)
            requires
                n == a * a + b * b,
                a == v.x * m,
                b == v.y * m,
                m >= 1,
                v.x != 0 || v.y != 0,
        ;
        lemma_ceil_sqrt_lower(n, 0);
        let l = ceil_sqrt(n);
        let u = div_toward_zero(a * t, l);
        let w = div_toward_zero(b * t, l);
        lemma_rounded_remainder(a * t, l);
        lemma_rounded_remainder(b * t, l);
        let rx = a * t - u * l;
        let ry = b * t - w * l;
        lemma_cross_bound(rx, ry, a, b, l);
        let cross = u * v.y - w * v.x;
        let size = magnitude(v.x) + magnitude(v.y);
        assert((b * t) * a == (a * t) * b) by (nonlinear_arith);
        assert(ry * a == (b * t) * a - (w * l) * a) by (nonlinear_arith)
            requires
                ry == b * t - w * l,
        ;
        assert(rx * b == (a * t) * b - (u * l) * b) by (nonlinear_arith)
            requires
                rx == a * t - u * l,
        ;
        assert((u * l) * b == l * (u * b)) by (nonlinear_arith);
        assert((w * l) * a == l * (w * a)) by (nonlinear_arith);
        let along_x = u * v.y;
        let along_y = w * v.x;
        assert(u * b == m * along_x) by (nonlinear_arith)
            requires
                b == v.y * m,
                along_x == u * v.y,
        ;
        assert(w * a == m * along_y) by (nonlinear_arith)
            requires
                a == v.x * m,
                along_y == w * v.x,
        ;
        assert(l * (m * along_x) - l * (m * along_y) == (l * m) * (along_x - along_y))
            by (nonlinear_arith);
        assert(ry * a - rx * b == (l * m) * cross);
        assert(magnitude(a) + magnitude(b) == m * size) by (nonlinear_arith)
            requires
                a == v.x * m,
                b == v.y * m,
                m >= 1,
                size == magnitude(v.x) + magnitude(v.y),
        ;
        assert(-size <= cross <= size) by (nonlinear_arith)
            requires
                -(l * (m * size)) <= (l * m) * cross <= l * (m * size),
                l >= 1,
                m >= 1,
        ;
        assert(r.x == u && r.y == w);
    }
}

/// A clamped vector has its length in `[min, max]`, within the tolerance.
pub proof fn lemma_clamped_length(v: IntVector, min: int, max: int)
    requires
        0 <= min <= max,
    ensures
        v.clamped(min, max).length_in(min, max),
        v.clamped(min, max).within(max),
{
    let r = v.clamped(min, max);
    lemma_scaled_to_length(v, min);
    lemma_scaled_to_length(v, max);
    lemma_square_weakly_monotone(min, max);
    if min > LENGTH_TOLERANCE {
        lemma_square_weakly_monotone(min - LENGTH_TOLERANCE, max - LENGTH_TOLERANCE);
        lemma_square_weakly_monotone(min - LENGTH_TOLERANCE, min);
    }
    assert(r.within(max)) by (nonlinear_arith)
        requires
            r.x * r.x + r.y * r.y <= max * max,
            max >= 0,
    ;
}

/// A vector of two machine integers, in fixed-point units.
#[derive(Clone, Copy, Debug, PartialEq, Eq, Structural)]
pub struct Vector2 {
    pub x: i64,
    pub y: i64,
}

impl View for Vector2 {
    type V = IntVector;

    open spec fn view(&self) -> IntVector {
        IntVector { x: self.x as int, y: self.y as int }
    }
}

impl Vector2 {
    pub fn new(x: i64, y: i64) -> (v: Vector2)
        ensures
            v.x == x,
            v.y == y,
    {
        Vector2 { x, y }
    }

    pub fn zero() -> (v: Vector2)
        ensures
            v@ == IntVector::zero(),
    {
        Vector2 { x: 0, y: 0 }
    }

    /// The vector of length `t` in the direction of `self`.
    pub fn with_length(self, t: i64) -> (r: Vector2)
        requires
            self@.within(MAX_UNCLAMPED as int),
            0 <= t <= MAX_MAGNITUDE,
        ensures
            r@ == self@.scaled_to(t as int),
    {
        if t == 0 {
            return Vector2 { x: 0, y: 0 };
        }
        if self.x == 0 && self.y == 0 {
            return Vector2 { x: 0, y: t };
        }
        let x = self.x as i128;
        let y = self.y as i128;
        let tt = t as i128;
        proof {
            lemma_product_bound(x as int, x as int, MAX_UNCLAMPED as int, MAX_UNCLAMPED as int);
            lemma_product_bound(y as int, y as int, MAX_UNCLAMPED as int, MAX_UNCLAMPED as int);
            lemma_product_bound(tt as int, tt as int, MAX_MAGNITUDE as int, MAX_MAGNITUDE as int);
            lemma_scaled_to_length(self@, t as int);
        }
        let s = x * x + y * y;
        let a: i128;
        let b: i128;
        if s >= tt * tt {
            a = x;
            b = y;
        } else {
            proof {
                assert(-tt < x < tt && -tt < y < tt) by (nonlinear_arith)
                    requires
                        x * x + y * y < tt * tt,
                        tt > 0,
                ;
                let bound = MAX_MAGNITUDE as int;
                lemma_product_bound(x as int, tt as int, bound, bound);
                lemma_product_bound(y as int, tt as int, bound, bound);
                assert(x * tt != 0 || y * tt != 0) by (nonlinear_arith)
                    requires
                        x != 0 || y != 0,
                        tt > 0,
                ;
            }
            a = x * tt;
            b = y * tt;
        }
        proof {
            lemma_product_bound(a as int, a as int, MAX_UNCLAMPED as int, MAX_UNCLAMPED as int);
            lemma_product_bound(b as int, b as int, MAX_UNCLAMPED as int, MAX_UNCLAMPED as int);
            lemma_product_bound(a as int, tt as int, MAX_UNCLAMPED as int, MAX_MAGNITUDE as int);
            lemma_product_bound(b as int, tt as int, MAX_UNCLAMPED as int, MAX_MAGNITUDE as int);
            assert(a * a >= 0 && b * b >= 0) by (nonlinear_arith);
            assert(a * a + b * b >= 1) by (nonlinear_arith)
                requires
                    a != 0 || b != 0,
            ;
            lemma_ceil_sqrt_lower((a * a + b * b) as int, 0);
        }
        let n = (a * a + b * b) as u128;
        let l = ceil_sqrt_u128(n) as i128;
        let rx = (a * tt) / l;
        let ry = (b * tt) / l;
        Vector2 { x: rx as i64, y: ry as i64 }
    }

    /// The vector with its length clamped into `[min, max]`.
    pub fn clamp_length(self, min: i64, max: i64) -> (r: Vector2)
        requires
            self@.within(MAX_UNCLAMPED as int),
            0 <= min <= max <= MAX_MAGNITUDE,
        ensures
            r@ == self@.clamped(min as int, max as int),
            r@.length_in(min as int, max as int),
            r@.within(max as int),
    {
        let x = self.x as i128;
        let y = self.y as i128;
        proof {
            lemma_product_bound(x as int, x as int, MAX_UNCLAMPED as int, MAX_UNCLAMPED as int);
            lemma_product_bound(y as int, y as int, MAX_UNCLAMPED as int, MAX_UNCLAMPED as int);
            lemma_product_bound(min as int, min as int, MAX_MAGNITUDE as int, MAX_MAGNITUDE as int);
            lemma_product_bound(max as int, max as int, MAX_MAGNITUDE as int, MAX_MAGNITUDE as int);
            lemma_clamped_length(self@, min as int, max as int);
        }
        let s = x * x + y * y;
        let lo = (min as i128) * (min as i128);
        let hi = (max as i128) * (max as i128);
        if s < lo {
            self.with_length(min)
        } else if s > hi {
            self.with_length(max)
        } else {
            self
        }
    }
}

} // verus!
