//! Membership tests for the two primitive regions, rectangles and ellipses,
//! in integer arithmetic.

use vstd::prelude::*;

verus! {

/// The points of an axis-aligned rectangle; both ends of each side belong to it.
pub open spec fn rect_contains(x: int, y: int, x1: int, y1: int, x2: int, y2: int) -> bool {
    x1 <= x <= x2 && y1 <= y <= y2
}

/// The implicit equation of an ellipse with semi-axes `a` and `b`, for a
/// point at offset `(dx, dy)` from its centre.
pub open spec fn ellipse_holds(dx: int, dy: int, a: int, b: int) -> bool {
    dx * dx * b * b + dy * dy * a * a <= a * a * b * b
}

/// The points of the ellipse centred at `(cx, cy)` with horizontal semi-axis
/// `a` and vertical semi-axis `b`.
pub open spec fn ellipse_contains(x: int, y: int, cx: int, cy: int, a: int, b: int) -> bool {
    ellipse_holds(x - cx, y - cy, a, b)
}

/// The absolute value of an integer.
pub open spec fn abs(n: int) -> int {
    if n < 0 {
        -n
    } else {
        n
    }
}

/// Absolute value of a 32-bit integer whose negation exists.
pub fn iabs(n: i32) -> (r: i32)
    requires
        n > i32::MIN,
    ensures
        r == abs(n as int),
{
    if n < 0 {
        -n
    } else {
        n
    }
}

/// Whether `(x, y)` lies in the rectangle from `(x1, y1)` to `(x2, y2)`, ends included.
pub fn in_rect(x: i32, y: i32, x1: i32, y1: i32, x2: i32, y2: i32) -> (r: bool)
    ensures
        r == rect_contains(x as int, y as int, x1 as int, y1 as int, x2 as int, y2 as int),
{
    x >= x1 && x <= x2 && y >= y1 && y <= y2
}

/// A point further from the centre than a semi-axis, along that axis, is
/// outside the ellipse, unless the other semi-axis is zero.
proof fn lemma_outside_axis(dx: int, dy: int, a: int, b: int)
    requires
        b != 0,
        abs(dx) > abs(a),
    ensures
        !ellipse_holds(dx, dy, a, b),
{
    assert(dx * dx >= a * a + 1) by (nonlinear_arith)
        requires
            abs(dx) > abs(a),
    ;
    assert(b * b >= 1) by (nonlinear_arith)
        requires
            b != 0,
    ;
    assert(dx * dx * b * b > a * a * b * b) by (nonlinear_arith)
        requires
            dx * dx >= a * a + 1,
            b * b >= 1,
    ;
    assert(dy * dy * a * a >= 0) by (nonlinear_arith);
}

/// The terms of the ellipse equation, regrouped.
proof fn lemma_term_symmetry(dx: int, dy: int, a: int, b: int)
    ensures
        dy * dy * a * a == dy * dy * (a * a),
        dx * dx * b * b == dx * dx * (b * b),
        a * a * b * b == b * b * a * a,
        a * a * b * b == a * a * (b * b),
{
    assert(dy * dy * a * a == dy * dy * (a * a)) by (nonlinear_arith);
    assert(dx * dx * b * b == dx * dx * (b * b)) by (nonlinear_arith);
    assert(a * a * b * b == b * b * a * a) by (nonlinear_arith);
    assert(a * a * b * b == a * a * (b * b)) by (nonlinear_arith);
}

/// A number within `m` of zero has a square of at most `m * m`.
pub proof fn lemma_square_bound(v: int, m: int)
    requires
        abs(v) <= m,
    ensures
        0 <= v * v <= m * m,
{
    assert(0 <= v * v <= m * m) by (nonlinear_arith)
        requires
            -m <= v <= m,
    ;
}

/// The product of two bounded non-negative numbers is bounded by the
/// product of the bounds.
pub proof fn lemma_product_bound(p: int, q: int, mp: int, mq: int)
    requires
        0 <= p <= mp,
        0 <= q <= mq,
    ensures
        0 <= p * q <= mp * mq,
{
    assert(0 <= p * q <= mp * mq) by (nonlinear_arith)
        requires
            0 <= p <= mp,
            0 <= q <= mq,
    ;
}

/// Decides the ellipse equation for an offset of any size, without overflow:
/// an offset beyond a semi-axis is outside, and what is left fits in 128 bits.
pub fn ellipse_test(dx: i64, dy: i64, a: i32, b: i32) -> (r: bool)
    ensures
        r == ellipse_holds(dx as int, dy as int, a as int, b as int),
{
    let wa: i64 = if a < 0 { -(a as i64) } else { a as i64 };
    let wb: i64 = if b < 0 { -(b as i64) } else { b as i64 };
    if b != 0 && (dx > wa || dx < -wa) {
        proof {
            lemma_outside_axis(dx as int, dy as int, a as int, b as int);
        }
        return false;
    }
    if a != 0 && (dy > wb || dy < -wb) {
        proof {
            lemma_outside_axis(dy as int, dx as int, b as int, a as int);
            lemma_term_symmetry(dx as int, dy as int, a as int, b as int);
            lemma_term_symmetry(dy as int, dx as int, b as int, a as int);
        }
        return false;
    }
    if a == 0 || b == 0 {
        proof {
            assert(dx == 0 || b == 0);
            assert(dy == 0 || a == 0);
            assert(ellipse_holds(dx as int, dy as int, a as int, b as int)) by (nonlinear_arith)
                requires
                    dx == 0 || b == 0,
                    dy == 0 || a == 0,
                    a == 0 || b == 0,
            ;
        }
        return true;
    }
    let ghost m: int = 0x8000_0000;
    proof {
        assert(m * m == 0x4000_0000_0000_0000) by (nonlinear_arith)
            requires
                m == 0x8000_0000,
        ;
        assert((m * m) * (m * m) == 0x1000_0000_0000_0000_0000_0000_0000_0000) by (nonlinear_arith)
            requires
                m * m == 0x4000_0000_0000_0000,
        ;
        lemma_square_bound(dx as int, m);
        lemma_square_bound(dy as int, m);
        lemma_square_bound(a as int, m);
        lemma_square_bound(b as int, m);
        lemma_product_bound(dx * dx, b * b, m * m, m * m);
        lemma_product_bound(dy * dy, a * a, m * m, m * m);
        lemma_product_bound(a * a, b * b, m * m, m * m);
        lemma_term_symmetry(dx as int, dy as int, a as int, b as int);
    }
    let x2: i128 = (dx as i128) * (dx as i128);
    let y2: i128 = (dy as i128) * (dy as i128);
    let a2: i128 = (a as i128) * (a as i128);
    let b2: i128 = (b as i128) * (b as i128);
    x2 * b2 + y2 * a2 <= a2 * b2
}

/// Whether `(x, y)` lies in the ellipse centred at `(cx, cy)` with horizontal
/// semi-axis `a` and vertical semi-axis `b`.
pub fn in_ellipse(x: i32, y: i32, cx: i32, cy: i32, a: i32, b: i32) -> (r: bool)
    ensures
        r == ellipse_contains(x as int, y as int, cx as int, cy as int, a as int, b as int),
{
    ellipse_test(x as i64 - cx as i64, y as i64 - cy as i64, a, b)
}

} // verus!
