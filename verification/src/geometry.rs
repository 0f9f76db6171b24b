//! Points, rectangles and the arithmetic of fixed-point coordinates.
//!
//! Every coordinate and length is an integer number of thousandths of a
//! pixel, so that the fractions by which a chart is laid out can be taken
//! without floating point.

use vstd::prelude::*;

verus! {

/// The number of coordinate units in one pixel.
pub const UNIT: i64 = 1000;

/// A point of the drawing surface.
#[derive(Clone, Copy, Debug, PartialEq, Eq, Structural)]
pub struct Point {
    pub x: i64,
    pub y: i64,
}

/// An axis-aligned rectangle, given by its four edges.
#[derive(Clone, Copy, Debug, PartialEq, Eq, Structural)]
pub struct Rect {
    pub left: i64,
    pub top: i64,
    pub right: i64,
    pub bottom: i64,
}

/// Whether the interiors of two rectangles have a point in common.
pub open spec fn overlap(a: Rect, b: Rect) -> bool {
    &&& a.left < a.right && b.left < b.right && a.left < b.right && b.left < a.right
    &&& a.top < a.bottom && b.top < b.bottom && a.top < b.bottom && b.top < a.bottom
}

/// Whether `inner` lies within `outer`, edges included.
pub open spec fn within(inner: Rect, outer: Rect) -> bool {
    &&& outer.left <= inner.left && inner.right <= outer.right
    &&& outer.top <= inner.top && inner.bottom <= outer.bottom
}

/// The quotient of `a` by a positive `b`, rounded toward zero.
pub open spec fn trunc_div(a: int, b: int) -> int
    recommends
        b > 0,
{
    if a >= 0 {
        a / b
    } else {
        -((-a) / b)
    }
}

/// The share `numer / denom` of `value`, rounded toward zero.
pub open spec fn share(value: int, numer: int, denom: int) -> int
    recommends
        denom > 0,
{
    trunc_div(value * numer, denom)
}

/// A share that is at most the whole is no larger in size than the value
/// it is taken of, and has its sign.
pub proof fn lemma_share_bound(value: int, numer: int, denom: int)
    requires
        0 <= numer <= denom,
        denom > 0,
    ensures
        value >= 0 ==> 0 <= share(value, numer, denom) <= value,
        value <= 0 ==> value <= share(value, numer, denom) <= 0,
{
    if value >= 0 {
        assert(0 <= (value * numer) / denom <= value) by (nonlinear_arith)
            requires
                0 <= numer <= denom,
                denom > 0,
                value >= 0,
        ;
        assert(value * numer >= 0) by (nonlinear_arith)
            requires
                0 <= numer,
                value >= 0,
        ;
    } else {
        let v = -value;
        assert(0 <= (v * numer) / denom <= v) by (nonlinear_arith)
            requires
                0 <= numer <= denom,
                denom > 0,
                v >= 0,
        ;
        assert(value * numer == -(v * numer)) by (nonlinear_arith)
            requires
                v == -value,
        ;
        assert(v * numer >= 0) by (nonlinear_arith)
            requires
                0 <= numer,
                v >= 0,
        ;
    }
}

/// Takes the share `numer / denom` of `value`, rounding toward zero.
pub fn share_of(value: i64, numer: u32, denom: u32) -> (part: i64)
    requires
        numer <= denom,
        denom > 0,
    ensures
        part == share(value as int, numer as int, denom as int),
{
    proof {
        lemma_share_bound(value as int, numer as int, denom as int);
        assert(-0x8000_0000_0000_0000 * 0x1_0000_0000 <= value * numer <= 0x8000_0000_0000_0000
            * 0x1_0000_0000) by (nonlinear_arith)
            requires
                -0x8000_0000_0000_0000 <= value <= 0x8000_0000_0000_0000,
                0 <= numer <= 0x1_0000_0000,
        ;
    }
    let product: i128 = (value as i128) * (numer as i128);
    let part: i128 = product / (denom as i128);
    part as i64
}

/// Whether `root` is the largest number whose square is at most `n`.
pub open spec fn is_floor_sqrt(n: int, root: int) -> bool {
    0 <= root && root * root <= n < (root + 1) * (root + 1)
}

/// The largest number whose square is at most `n`.
pub open spec fn floor_sqrt_spec(n: int) -> int {
    choose|root: int| is_floor_sqrt(n, root)
}

/// Only one number is the largest whose square is at most `n`.
pub proof fn lemma_floor_sqrt_unique(n: int, root: int)
    requires
        is_floor_sqrt(n, root),
    ensures
        floor_sqrt_spec(n) == root,
{
    let other = floor_sqrt_spec(n);
    assert(is_floor_sqrt(n, other));
    assert(other == root) by (nonlinear_arith)
        requires
            0 <= root,
            0 <= other,
            root * root <= n < (root + 1) * (root + 1),
            other * other <= n < (other + 1) * (other + 1),
    ;
}

/// The square root of a number below the square of `bound` is below `bound`.
pub proof fn lemma_floor_sqrt_below(n: int, bound: int)
    requires
        0 <= n < bound * bound,
        0 < bound,
    ensures
        0 <= floor_sqrt_spec(n) < bound,
{
    assert(exists|root: int| is_floor_sqrt(n, root)) by {
        lemma_floor_sqrt_exists(n, bound);
    }
    let root = floor_sqrt_spec(n);
    assert(root < bound) by (nonlinear_arith)
        requires
            0 <= root,
            0 < bound,
            root * root <= n,
            n < bound * bound,
    ;
}

/// Every number that is not negative has an integer square root.
proof fn lemma_floor_sqrt_exists(n: int, bound: int)
    requires
        0 <= n < bound * bound,
        0 < bound,
    ensures
        exists|root: int| is_floor_sqrt(n, root),
    decreases bound,
{
    let below = bound - 1;
    if below * below <= n {
        assert(is_floor_sqrt(n, below));
    } else {
        assert(below > 0) by (nonlinear_arith)
            requires
                below * below > n,
                n >= 0,
                below >= 0,
        ;
        lemma_floor_sqrt_exists(n, below);
    }
}

/// The integer square root: the largest number whose square is at most `n`.
pub fn floor_sqrt(n: u128) -> (root: u64)
    ensures
        is_floor_sqrt(n as int, root as int),
        root == floor_sqrt_spec(n as int),
{
    let root = floor_sqrt_search(n);
    proof {
        lemma_floor_sqrt_unique(n as int, root as int);
    }
    root
}

/// Finds the integer square root by halving the range in which it lies.
fn floor_sqrt_search(n: u128) -> (root: u64)
    ensures
        is_floor_sqrt(n as int, root as int),
{
    let mut low: u128 = 0;
    let mut high: u128 = 0x1_0000_0000_0000_0000;
    assert(high * high > n) by (nonlinear_arith)
        requires
            high == 0x1_0000_0000_0000_0000,
            n < 0x1_0000_0000_0000_0000_0000_0000_0000_0000,
    ;
    while high - low > 1
        invariant
            low < high <= 0x1_0000_0000_0000_0000,
            low * low <= n < high * high,
        decreases high - low,
    {
        let mid: u128 = low + (high - low) / 2;
        assert(mid * mid <= 0xffff_ffff_ffff_ffff * 0xffff_ffff_ffff_ffff) by (nonlinear_arith)
            requires
                0 <= mid <= 0xffff_ffff_ffff_ffff,
        ;
        if mid * mid <= n {
            low = mid;
        } else {
            high = mid;
        }
    }
    low as u64
}

} // verus!
