//! Fixed-point scalars.
//!
//! Every quantity of the simulation (coordinates, speeds, radii, coefficients)
//! is an integer number of units, where [`ONE`] units make up 1.0. Arithmetic on
//! them is exact integer arithmetic, and the only rounding is that of a
//! division, which always rounds toward zero.

use vstd::prelude::*;

verus! {

/// The number of units in 1.0.
pub const ONE: i64 = 1_048_576;

/// The largest magnitude of a speed, a radius, a coefficient or the box size.
pub const MAX_MAGNITUDE: i64 = 1_073_741_824;

/// The largest magnitude of a position coordinate: the edge of the world.
pub const MAX_COORDINATE: i64 = 1_099_511_627_776;

/// The largest magnitude of a velocity component before its length is clamped.
pub const MAX_UNCLAMPED: i64 = 2_305_843_009_213_693_952;

/// The largest number of agents in one flock.
pub const MAX_AGENTS: usize = 65_536;

/// The number of simulation ticks in one second.
pub const TICKS_PER_SECOND: i64 = 60;

/// By how many units the length of a rescaled vector may fall short of the
/// length that was asked for.
pub const LENGTH_TOLERANCE: i64 = 3;

/// The magnitude of `a`.
pub open spec fn magnitude(a: int) -> int {
    if a >= 0 {
        a
    } else {
        -a
    }
}

/// The quotient of `a` by a positive `b`, rounded toward zero.
pub open spec fn div_toward_zero(a: int, b: int) -> int {
    if a >= 0 {
        a / b
    } else {
        -((-a) / b)
    }
}

/// The fixed-point product of two fixed-point values.
pub open spec fn scaled_product(a: int, b: int) -> int {
    div_toward_zero(a * b, ONE as int)
}

/// Whether `r` is the least natural number whose square is at least `n`.
pub open spec fn is_ceil_sqrt(n: int, r: int) -> bool {
    &&& 0 <= r
    &&& n <= r * r
    &&& r > 0 ==> (r - 1) * (r - 1) < n
}

/// The square root of `n`, rounded up; 0 where `n` is not positive.
pub open spec fn ceil_sqrt(n: int) -> int {
    choose|r: int| is_ceil_sqrt(n, r)
}

/// Squaring is strictly monotone on the natural numbers.
pub proof fn lemma_square_monotone(a: int, b: int)
    by (nonlinear_arith)
    requires
        0 <= a < b,
    ensures
        a * a < b * b,
{
}

/// Squaring is monotone on the natural numbers.
pub proof fn lemma_square_weakly_monotone(a: int, b: int)
    by (nonlinear_arith)
    requires
        0 <= a <= b,
    ensures
        a * a <= b * b,
{
}

/// At most one number is the rounded-up square root of `n`.
pub proof fn lemma_ceil_sqrt_unique(n: int, r: int)
    requires
        is_ceil_sqrt(n, r),
    ensures
        ceil_sqrt(n) == r,
{
    let c = ceil_sqrt(n);
    assert(is_ceil_sqrt(n, c));
    if c < r {
        if c < r - 1 {
            lemma_square_monotone(c, r - 1);
        }
    } else if r < c {
        if r < c - 1 {
            lemma_square_monotone(r, c - 1);
        }
    }
}

/// The product of two bounded factors is bounded by the product of the bounds.
pub proof fn lemma_product_bound(a: int, b: int, bound_a: int, bound_b: int)
    by (nonlinear_arith)
    requires
        -bound_a <= a <= bound_a,
        -bound_b <= b <= bound_b,
    ensures
        -(bound_a * bound_b) <= a * b <= bound_a * bound_b,
{
}

/// Rounding toward zero never increases the magnitude, and keeps the sign.
pub proof fn lemma_div_toward_zero_bound(a: int, b: int, bound: int)
    by (nonlinear_arith)
    requires
        b > 0,
        -(bound * b) <= a <= bound * b,
        bound >= 0,
    ensures
        -bound <= div_toward_zero(a, b) <= bound,
        a >= 0 ==> div_toward_zero(a, b) >= 0,
        a <= 0 ==> div_toward_zero(a, b) <= 0,
{
}

/// The rounded-up square root of `n`.
pub fn ceil_sqrt_u128(n: u128) -> (r: u128)
    ensures
        r == ceil_sqrt(n as int),
        r <= 0x1_0000_0000_0000_0000,
{
    if n == 0 {
        proof {
            lemma_ceil_sqrt_unique(0, 0);
        }
        return 0;
    }
    let mut lo: u128 = 0;
    let mut hi: u128 = 0x1_0000_0000_0000_0000;
    while hi - lo > 1
        invariant
            lo < hi <= 0x1_0000_0000_0000_0000,
            lo * lo < n,
            n <= hi * hi,
        decreases hi - lo,
    {
        let mid: u128 = lo + (hi - lo) / 2;
        assert(mid * mid <= 0xffff_ffff_ffff_ffff * 0xffff_ffff_ffff_ffff) by (nonlinear_arith)
            requires
                0 <= mid <= 0xffff_ffff_ffff_ffff,
        ;
        if mid * mid >= n {
            hi = mid;
        } else {
            lo = mid;
        }
    }
    proof {
        lemma_ceil_sqrt_unique(n as int, hi as int);
    }
    hi
}

/// The largest magnitude of a component of a sum of separation displacements:
/// [`MAX_AGENTS`] times [`MAX_MAGNITUDE`].
pub const MAX_SEPARATION_SUM: i64 = 70_368_744_177_664;

/// The two sides of a right triangle are shorter than a longer hypotenuse.
pub proof fn lemma_components_below(x: int, y: int, r: int)
    by (nonlinear_arith)
    requires
        x * x + y * y < r * r,
        r >= 0,
    ensures
        -r < x < r,
        -r < y < r,
{
}

} // verus!
