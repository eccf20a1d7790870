//! The visible area of the round panel, and the placement of rectangles
//! inside it.
//!
//! The panel is a disc of radius 233 about (233, 233); pixels of the 466x466
//! frame outside the disc cannot be seen.

use vstd::prelude::*;
use crate::geometry::{abs, lemma_product_bound, lemma_square_bound};

verus! {

/// Width of the frame in pixels.
pub const DISPLAY_W: i32 = 466;

/// Height of the frame in pixels.
pub const DISPLAY_H: i32 = 466;

/// Column of the centre of the visible disc.
pub const DISPLAY_CX: i32 = 233;

/// Row of the centre of the visible disc.
pub const DISPLAY_CY: i32 = 233;

/// Radius of the visible disc.
pub const DISPLAY_R: i32 = 233;

/// Twice the radius: distances between centres are kept doubled, so that the
/// centre of a rectangle of odd size is still an integer.
pub const DIAMETER: i64 = 466;

/// The points of the visible disc.
pub open spec fn in_disc(x: int, y: int) -> bool {
    (x - DISPLAY_CX) * (x - DISPLAY_CX) + (y - DISPLAY_CY) * (y - DISPLAY_CY) <= DISPLAY_R
        * DISPLAY_R
}

/// A rectangle of `w` by `h` pixels with its top-left pixel at `(x, y)` is
/// visible when its four corner pixels are.
pub open spec fn rect_in_disc(x: int, y: int, w: int, h: int) -> bool {
    in_disc(x, y) && in_disc(x + w - 1, y) && in_disc(x, y + h - 1) && in_disc(
        x + w - 1,
        y + h - 1,
    )
}

/// `r` is the square root of `n` rounded up: the least natural number whose
/// square is at least `n`.
pub open spec fn is_ceil_sqrt(n: int, r: int) -> bool {
    r >= 0 && r * r >= n && (r == 0 || (r - 1) * (r - 1) < n)
}

/// The square root of `n`, rounded up.
pub open spec fn ceil_sqrt(n: int) -> int {
    choose|r: int| is_ceil_sqrt(n, r)
}

/// Half of `v`, rounded toward zero.
pub open spec fn half_toward_zero(v: int) -> int {
    if v >= 0 {
        v / 2
    } else {
        -((-v) / 2)
    }
}

/// Distances between centres are measured in units of `1 / SCALE` of the
/// doubled grid when a rectangle is moved, so that the rounding of the two
/// roots is finer than a pixel can show.
pub const SCALE: i64 = 4096;

/// The square root of `n` in units of `1 / SCALE`, rounded up.
pub open spec fn fine_root(n: int) -> int {
    ceil_sqrt(SCALE * SCALE * n)
}

/// The greatest distance, in units of `1 / SCALE` of the doubled grid, that
/// the centre of a `w` by `h` rectangle may have from the centre of the
/// disc: the diameter less the diagonal of the rectangle, rounded up. The
/// exact distance is at least this and less than this plus one.
pub open spec fn reach(w: int, h: int) -> int {
    DIAMETER * SCALE - fine_root(w * w + h * h)
}

/// The greatest integer up to `v` that is even or odd as `like` is.
pub open spec fn parity_floor(v: int, like: int) -> int {
    if (v - like) % 2 == 0 {
        v
    } else {
        v - 1
    }
}

/// The least integer from `v` up that is even or odd as `like` is.
pub open spec fn parity_ceil(v: int, like: int) -> int {
    if (v - like) % 2 == 0 {
        v
    } else {
        v + 1
    }
}

/// Where the middle of the corner pixels of a moved rectangle comes to lie
/// along one axis, on the doubled grid and relative to the centre of the
/// disc.
///
/// `d` is the offset of the centre asked for, `size` the extent of the
/// rectangle, `m` its reach and `dist` the distance of the centre asked for
/// in units of `1 / SCALE`, rounded up. The centre is projected to `d * m /
/// dist`; the corner pixels of a rectangle span one pixel less than the
/// rectangle, which leaves half a pixel to spare on its far side. To the
/// right of the centre and below it the middle is the last place up to the
/// projection plus that half pixel, and never further out than asked for.
/// To the left and above, the half pixel lies on the side of the centre, and
/// the middle is the first place from the projection less that half pixel.
pub open spec fn placed_middle(d: int, size: int, m: int, dist: int) -> int {
    if d >= 0 {
        let inner = parity_floor((d * m) / dist + 1, size - 1);
        if inner < d - 1 {
            inner
        } else {
            d - 1
        }
    } else {
        let q = ((-d) * (m + 1) + dist - 2) / (dist - 1);
        -parity_ceil(
            if q >= 1 {
                q - 1
            } else {
                0
            },
            size - 1,
        )
    }
}

/// Where a `w` by `h` rectangle asked for at `(x, y)` is placed.
///
/// A rectangle that is visible stays. One whose diagonal is longer than the
/// diameter is centred. One whose centre is within reach stays. Any other is
/// moved: its centre is pulled toward the centre of the disc along the line
/// between the two centres, onto the circle of the centres within reach, and
/// its top-left pixel is the one that puts the middle of its corner pixels
/// where `placed_middle` says.
pub open spec fn clamped(x: int, y: int, w: int, h: int) -> (int, int) {
    if rect_in_disc(x, y, w, h) {
        (x, y)
    } else if w * w + h * h > DIAMETER * DIAMETER {
        (DISPLAY_CX - half_toward_zero(w), DISPLAY_CY - half_toward_zero(h))
    } else {
        let m = reach(w, h);
        let dx = 2 * x + w - DIAMETER;
        let dy = 2 * y + h - DIAMETER;
        if SCALE * SCALE * (dx * dx + dy * dy) <= m * m {
            (x, y)
        } else {
            let dist = fine_root(dx * dx + dy * dy);
            (
                (DIAMETER + placed_middle(dx, w, m, dist) + 1 - w) / 2,
                (DIAMETER + placed_middle(dy, h, m, dist) + 1 - h) / 2,
            )
        }
    }
}

/// Whether a rectangle asked for at `(x, y)` is moved: it is not visible
/// where it stands, and it is small enough to be visible elsewhere.
pub open spec fn moved(x: int, y: int, w: int, h: int) -> bool {
    !rect_in_disc(x, y, w, h) && w * w + h * h <= DIAMETER * DIAMETER
}

/// Whether a rectangle of extent `size` with its first pixel at `p` has its
/// centre within one pixel of the projection, along one axis.
///
/// `d`, `m` and `dist` are as for `placed_middle`. On the doubled grid the
/// centre of the result lies `t` from the centre of the disc, counted toward
/// the side of `d`, and the projection lies `|d| * M / D` there, with `M`
/// the exact reach and `D` the exact distance. Since `m <= SCALE * M < m + 1`
/// and `dist - 1 < SCALE * D <= dist`, the projection lies between `|d| * m /
/// dist` and `|d| * (m + 1) / (dist - 1)`. The two clauses say that `t - 2`
/// is at most the first and `t + 2` at least the second: the centre is
/// within two places of the doubled grid, one pixel, of the projection.
pub open spec fn near_projection(p: int, d: int, size: int, m: int, dist: int) -> bool {
    let t = if d >= 0 {
        2 * p + size - DIAMETER
    } else {
        DIAMETER - size - 2 * p
    };
    (t - 2) * dist <= abs(d) * m && (t + 2) * (dist - 1) >= abs(d) * (m + 1)
}

/// Squares grow with their roots.
proof fn lemma_square_monotonic(a: int, b: int)
    requires
        0 <= a <= b,
    ensures
        a * a <= b * b,
{
    assert(a * a <= b * b) by (nonlinear_arith)
        requires
            0 <= a <= b,
    ;
}

/// A number whose square is at most that of `k` is at most `k`.
proof fn lemma_root_bound(c: int, k: int)
    requires
        k >= 0,
        c * c <= k * k,
    ensures
        c <= k,
        -k <= c,
{
    if c > k {
        assert(c * c > k * k) by (nonlinear_arith)
            requires
                c > k,
                k >= 0,
        ;
    }
    if c < -k {
        assert(c * c > k * k) by (nonlinear_arith)
            requires
                c < -k,
                k >= 0,
        ;
    }
}

/// There is only one rounded-up square root.
pub proof fn lemma_ceil_sqrt_unique(n: int, r1: int, r2: int)
    requires
        is_ceil_sqrt(n, r1),
        is_ceil_sqrt(n, r2),
    ensures
        r1 == r2,
{
    if r1 < r2 {
        lemma_square_monotonic(r1, r2 - 1);
    }
    if r2 < r1 {
        lemma_square_monotonic(r2, r1 - 1);
    }
}

/// Below any root whose square reaches `n` there is a least one.
proof fn lemma_least_root(n: int, k: int)
    requires
        k >= 0,
        k * k >= n,
    ensures
        exists|r: int| is_ceil_sqrt(n, r),
    decreases k,
{
    if k == 0 || (k - 1) * (k - 1) < n {
        assert(is_ceil_sqrt(n, k));
    } else {
        lemma_least_root(n, k - 1);
    }
}

/// Every integer has a rounded-up square root, and `ceil_sqrt` is it.
pub proof fn lemma_ceil_sqrt(n: int)
    ensures
        is_ceil_sqrt(n, ceil_sqrt(n)),
{
    let k = if n >= 0 {
        n
    } else {
        0
    };
    assert(k * k >= n) by (nonlinear_arith)
        requires
            k >= 0,
            k >= n,
    ;
    lemma_least_root(n, k);
}

/// A number that is the rounded-up square root of `n` is `ceil_sqrt(n)`.
pub proof fn lemma_ceil_sqrt_is(n: int, r: int)
    requires
        is_ceil_sqrt(n, r),
    ensures
        r == ceil_sqrt(n),
{
    lemma_ceil_sqrt(n);
    lemma_ceil_sqrt_unique(n, r, ceil_sqrt(n));
}

/// The square root of `n` rounded up, by bisection.
fn isqrt_ceil(n: u128) -> (r: u64)
    requires
        n <= 0x10_0000_0000_0000_0000_0000_0000,
    ensures
        r == ceil_sqrt(n as int),
        r <= 0x4_0000_0000_0000,
{
    let mut lo: u64 = 0;
    let mut hi: u64 = 0x4_0000_0000_0000;
    proof {
        assert(0x4_0000_0000_0000int * 0x4_0000_0000_0000int
            == 0x10_0000_0000_0000_0000_0000_0000int) by (nonlinear_arith);
    }
    while lo < hi
        invariant
            lo <= hi <= 0x4_0000_0000_0000,
            hi * hi >= n,
            lo == 0 || (lo - 1) * (lo - 1) < n,
        decreases hi - lo,
    {
        let mid: u64 = lo + (hi - lo) / 2;
        proof {
            lemma_square_bound(mid as int, 0x4_0000_0000_0000);
            assert(0x4_0000_0000_0000int * 0x4_0000_0000_0000int
                == 0x10_0000_0000_0000_0000_0000_0000int) by (nonlinear_arith);
        }
        let sq: u128 = (mid as u128) * (mid as u128);
        if sq >= n {
            hi = mid;
        } else {
            lo = mid + 1;
        }
    }
    proof {
        lemma_ceil_sqrt_is(n as int, lo as int);
    }
    lo
}

/// Whether the point `(x, y)` is visible, for coordinates of up to 34 bits.
fn disc_test(x: i64, y: i64) -> (r: bool)
    requires
        -0x2_0000_0000 <= x <= 0x2_0000_0000,
        -0x2_0000_0000 <= y <= 0x2_0000_0000,
    ensures
        r == in_disc(x as int, y as int),
{
    let dx: i64 = x - DISPLAY_CX as i64;
    let dy: i64 = y - DISPLAY_CY as i64;
    proof {
        lemma_square_bound(dx as int, 0x4_0000_0000);
        lemma_square_bound(dy as int, 0x4_0000_0000);
        assert(0x4_0000_0000int * 0x4_0000_0000int == 0x10_0000_0000_0000_0000int) by (nonlinear_arith);
    }
    let r2: i128 = 54289;
    assert(DISPLAY_R * DISPLAY_R == 54289) by (nonlinear_arith)
        requires
            DISPLAY_R == 233,
    ;
    (dx as i128) * (dx as i128) + (dy as i128) * (dy as i128) <= r2
}

/// Returns `true` if the point `(x, y)` lies within the visible disc.
pub fn point_in_display(x: i32, y: i32) -> (r: bool)
    ensures
        r == in_disc(x as int, y as int),
{
    disc_test(x as i64, y as i64)
}

/// Returns `true` if the `w` by `h` rectangle with its top-left pixel at
/// `(x, y)` lies within the visible disc: all four corner pixels are inside.
pub fn rect_in_display(x: i32, y: i32, w: i32, h: i32) -> (r: bool)
    ensures
        r == rect_in_disc(x as int, y as int, w as int, h as int),
{
    let x2: i64 = x as i64 + w as i64 - 1;
    let y2: i64 = y as i64 + h as i64 - 1;
    disc_test(x as i64, y as i64) && disc_test(x2, y as i64) && disc_test(x as i64, y2)
        && disc_test(x2, y2)
}

/// A product of two products, regrouped.
proof fn lemma_regroup(a: int, b: int, c: int, d: int)
    ensures
        (a * b) * (c * d) == (a * c) * (b * d),
{
    assert((a * b) * (c * d) == (a * c) * (b * d)) by (nonlinear_arith);
}

/// The square of a sum.
proof fn lemma_binomial(a: int, b: int)
    ensures
        (a + b) * (a + b) == a * a + 2 * (a * b) + b * b,
{
    assert((a + b) * (a + b) == a * a + 2 * (a * b) + b * b) by (nonlinear_arith);
}

/// The triangle inequality on the doubled grid: a centre within `m` of the
/// middle, and a corner within `(w, h)` of that centre, make a corner within
/// the diameter of the middle, where `m` and the diagonal `r` add up to it.
proof fn lemma_corner_in_reach(nx: int, ny: int, ex: int, ey: int, w: int, h: int, m: int, r: int)
    requires
        m >= 0,
        r >= 0,
        w >= 0,
        h >= 0,
        nx * nx + ny * ny <= m * m,
        abs(ex) <= w,
        abs(ey) <= h,
        w * w + h * h <= r * r,
    ensures
        (nx + ex) * (nx + ex) + (ny + ey) * (ny + ey) <= (m + r) * (m + r),
{
    lemma_square_bound(ex, w);
    lemma_square_bound(ey, h);
    let n2 = nx * nx + ny * ny;
    let e2 = ex * ex + ey * ey;
    let c = nx * ex + ny * ey;
    let k = m * r;
    let t = nx * ey - ny * ex;
    lemma_regroup(nx, ex, nx, ex);
    lemma_regroup(ny, ey, ny, ey);
    lemma_regroup(nx, ey, nx, ey);
    lemma_regroup(ny, ex, ny, ex);
    lemma_regroup(nx, ex, ny, ey);
    lemma_regroup(nx, ey, ny, ex);
    assert((ny * ny) * (ex * ex) == (ny * ex) * (ny * ex));
    lemma_binomial(nx * ex, ny * ey);
    lemma_binomial(nx * ey, -(ny * ex));
    assert((nx * ey) * (-(ny * ex)) == -((nx * ey) * (ny * ex))) by (nonlinear_arith);
    assert((-(ny * ex)) * (-(ny * ex)) == (ny * ex) * (ny * ex)) by (nonlinear_arith);
    assert(n2 * e2 == (nx * nx) * (ex * ex) + (nx * nx) * (ey * ey) + (ny * ny) * (ex * ex) + (ny
        * ny) * (ey * ey)) by (nonlinear_arith)
        requires
            n2 == nx * nx + ny * ny,
            e2 == ex * ex + ey * ey,
    ;
    assert(c * c + t * t == n2 * e2);
    assert(t * t >= 0) by (nonlinear_arith);
    assert(n2 >= 0 && e2 >= 0) by (nonlinear_arith)
        requires
            n2 == nx * nx + ny * ny,
            e2 == ex * ex + ey * ey,
    ;
    lemma_product_bound(n2, e2, m * m, r * r);
    assert((m * m) * (r * r) == k * k) by (nonlinear_arith)
        requires
            k == m * r,
    ;
    assert(k >= 0) by (nonlinear_arith)
        requires
            k == m * r,
            m >= 0,
            r >= 0,
    ;
    lemma_root_bound(c, k);
    assert((nx + ex) * (nx + ex) + (ny + ey) * (ny + ey) == n2 + 2 * c + e2) by (nonlinear_arith)
        requires
            n2 == nx * nx + ny * ny,
            e2 == ex * ex + ey * ey,
            c == nx * ex + ny * ey,
    ;
    assert((m + r) * (m + r) == m * m + 2 * k + r * r) by (nonlinear_arith)
        requires
            k == m * r,
    ;
}

/// A point is visible when, on the doubled grid, it is within the diameter
/// of the middle.
proof fn lemma_doubled_in_disc(x: int, y: int)
    requires
        (2 * x - DIAMETER) * (2 * x - DIAMETER) + (2 * y - DIAMETER) * (2 * y - DIAMETER)
            <= DIAMETER * DIAMETER,
    ensures
        in_disc(x, y),
{
    let a = x - 233;
    let b = y - 233;
    assert((2 * a) * (2 * a) + (2 * b) * (2 * b) == 4 * (a * a + b * b)) by (nonlinear_arith);
    assert(DISPLAY_R * DISPLAY_R == 54289) by (nonlinear_arith)
        requires
            DISPLAY_R == 233,
    ;
    assert(DIAMETER * DIAMETER == 217156) by (nonlinear_arith)
        requires
            DIAMETER == 466,
    ;
}

/// Division rounds down: the quotient times the divisor is the greatest
/// multiple of the divisor up to the dividend.
proof fn lemma_floor_div(n: int, e: int)
    requires
        n >= 0,
        e >= 1,
    ensures
        0 <= n / e,
        (n / e) * e <= n < (n / e + 1) * e,
{
    vstd::arithmetic::div_mod::lemma_fundamental_div_mod(n, e);
    vstd::arithmetic::div_mod::lemma_mod_bound(n, e);
    vstd::arithmetic::div_mod::lemma_div_pos_is_pos(n, e);
    let q = n / e;
    assert(q * e == e * q) by (nonlinear_arith);
    assert((q + 1) * e == q * e + e) by (nonlinear_arith);
}

/// Division of `n + e - 1` rounds `n / e` up: the quotient times the divisor
/// is the least multiple of the divisor from the dividend up.
proof fn lemma_ceil_div(n: int, e: int)
    requires
        n >= 0,
        e >= 1,
    ensures
        0 <= (n + e - 1) / e,
        ((n + e - 1) / e - 1) * e < n <= ((n + e - 1) / e) * e,
{
    lemma_floor_div(n + e - 1, e);
    let q = (n + e - 1) / e;
    assert((q - 1) * e == q * e - e) by (nonlinear_arith);
    assert((q + 1) * e == q * e + e) by (nonlinear_arith);
}

/// A factor that grows makes the product with a non-negative number grow.
proof fn lemma_mul_le(a: int, b: int, c: int)
    requires
        a <= b,
        c >= 0,
    ensures
        a * c <= b * c,
{
    assert(a * c <= b * c) by (nonlinear_arith)
        requires
            a <= b,
            c >= 0,
    ;
}

/// What holds of the place along one axis: it is even or odd as the grid
/// asks, it lies between the place asked for and the centre, it stays within
/// the projection plus the half pixel to spare, and it is within one pixel
/// of the projection.
proof fn lemma_axis(d: int, size: int, m: int, dist: int)
    requires
        0 <= m < dist,
        dist >= 2,
        abs(d) < dist,
        (d - size) % 2 == 0,
    ensures
        ({
            let c = placed_middle(d, size, m, dist);
            let v = if abs(c) >= 1 {
                abs(c) - 1
            } else {
                0
            };
            let t = if d >= 0 {
                c + 1
            } else {
                -c - 1
            };
            &&& (c - (size - 1)) % 2 == 0
            &&& (d >= 0 ==> -1 <= c <= d - 1)
            &&& (d < 0 ==> d - 1 <= c <= 0)
            &&& v * (dist - 1) <= abs(d) * (m + 1)
            &&& (t - 2) * dist <= abs(d) * m
            &&& (t + 2) * (dist - 1) >= abs(d) * (m + 1)
        }),
{
    let c = placed_middle(d, size, m, dist);
    let a = abs(d);
    let e = dist - 1;
    assert(a * m >= 0 && a * (m + 1) == a * m + a && a * dist == a * e + a && a * m <= a * e) by (nonlinear_arith)
        requires
            a >= 0,
            m >= 0,
            e == dist - 1,
            m <= e,
    ;
    if d >= 0 {
        let nlo = (d * m) / dist;
        lemma_floor_div(d * m, dist);
        let inner = parity_floor(nlo + 1, size - 1);
        assert(nlo <= inner <= nlo + 1);
        // The quotient is at most the offset itself.
        if nlo > a {
            lemma_mul_le(a + 1, nlo, dist);
            assert((a + 1) * dist == a * dist + dist) by (nonlinear_arith);
        }
        let v = if abs(c) >= 1 {
            abs(c) - 1
        } else {
            0
        };
        assert(v <= nlo);
        lemma_mul_le(v, nlo, e);
        assert(nlo * e <= nlo * dist) by (nonlinear_arith)
            requires
                nlo >= 0,
                e == dist - 1,
        ;
        // Not further out than the projection and a pixel.
        if c - 1 >= 0 {
            lemma_mul_le(c - 1, nlo, dist);
        } else {
            assert((c - 1) * dist <= 0) by (nonlinear_arith)
                requires
                    c - 1 < 0,
                    dist >= 0,
            ;
        }
        // Not further in than the projection less a pixel.
        if c == inner {
            lemma_mul_le(nlo + 3, c + 3, e);
            assert((nlo + 3) * e == (nlo + 1) * dist + 2 * dist - nlo - 3) by (nonlinear_arith)
                requires
                    e == dist - 1,
            ;
        } else {
            assert(c == a - 1);
            assert((a + 2) * e == a * e + 2 * e) by (nonlinear_arith);
        }
    } else {
        let n = a * (m + 1);
        lemma_ceil_div(n, e);
        let q = (n + e - 1) / e;
        assert(q == ((-d) * (m + 1) + dist - 2) / (dist - 1));
        if q < 1 {
            assert(q * e <= 0) by (nonlinear_arith)
                requires
                    q < 1,
                    e >= 1,
            ;
        }
        let k = parity_ceil(q - 1, size - 1);
        assert(c == -k);
        assert(q - 1 <= k <= q);
        // The place is not further out than the place asked for.
        if q - 1 >= a + 1 {
            lemma_mul_le(a + 1, q - 1, e);
            assert((a + 1) * e == a * e + e) by (nonlinear_arith);
        }
        let v = if abs(c) >= 1 {
            abs(c) - 1
        } else {
            0
        };
        assert(v <= q - 1);
        lemma_mul_le(v, q - 1, e);
        lemma_mul_le(q, k + 1, e);
        if k - 3 > 0 {
            lemma_mul_le(k - 3, q - 3, dist);
            assert((q - 3) * dist == (q - 1) * e - 2 * e + q - 3) by (nonlinear_arith)
                requires
                    e == dist - 1,
            ;
        } else {
            assert((k - 3) * dist <= 0) by (nonlinear_arith)
                requires
                    k - 3 <= 0,
                    dist >= 0,
            ;
        }
    }
}

/// The corner of a rectangle that lies furthest from the centre is within
/// the disc when, along each axis, the middle of the corner pixels is within
/// the projection and the half pixel to spare: `vx` and `vy` are the
/// distances of the middle, less that half pixel, `ax` and `ay` those of the
/// centre asked for, `m` the reach, `r` the diagonal and `dist` the distance,
/// the last three in units of `1 / SCALE` and rounded up.
proof fn lemma_far_corner(vx: int, vy: int, ax: int, ay: int, w: int, h: int, m: int, r: int, dist: int)
    requires
        vx >= 0,
        vy >= 0,
        ax >= 0,
        ay >= 0,
        w >= 0,
        h >= 0,
        r >= 0,
        m >= 0,
        m + r == DIAMETER * SCALE,
        m < dist,
        dist >= 2,
        vx * (dist - 1) <= ax * (m + 1),
        vy * (dist - 1) <= ay * (m + 1),
        SCALE * SCALE * (ax * ax + ay * ay) <= dist * dist,
        SCALE * SCALE * (w * w + h * h) <= r * r,
    ensures
        (vx + w) * (vx + w) + (vy + h) * (vy + h) <= DIAMETER * DIAMETER,
{
    let k: int = 4096;
    let e = dist - 1;
    let mh = m + 1;
    let g = m + 3;
    assert(vx * e >= 0 && vy * e >= 0) by (nonlinear_arith)
        requires
            vx >= 0,
            vy >= 0,
            e >= 0,
    ;
    lemma_square_monotonic(vx * e, ax * mh);
    lemma_square_monotonic(vy * e, ay * mh);
    lemma_regroup(vx, e, vx, e);
    lemma_regroup(vy, e, vy, e);
    lemma_regroup(ax, mh, ax, mh);
    lemma_regroup(ay, mh, ay, mh);
    let e2 = e * e;
    let mh2 = mh * mh;
    let v2 = vx * vx + vy * vy;
    let l = ax * ax + ay * ay;
    let d2 = dist * dist;
    let g2 = g * g;
    assert(v2 * e2 <= l * mh2) by (nonlinear_arith)
        requires
            (vx * vx) * e2 <= (ax * ax) * mh2,
            (vy * vy) * e2 <= (ay * ay) * mh2,
            v2 == vx * vx + vy * vy,
            l == ax * ax + ay * ay,
    ;
    let kk = k * k;
    assert(kk == SCALE * SCALE && kk == 16777216) by (nonlinear_arith)
        requires
            k == 4096,
            kk == k * k,
            SCALE == 4096,
    ;
    assert(mh2 >= 0 && e2 >= 1 && v2 >= 0) by (nonlinear_arith)
        requires
            mh2 == mh * mh,
            e2 == e * e,
            e >= 1,
            v2 == vx * vx + vy * vy,
    ;
    assert((kk * v2) * e2 <= d2 * mh2) by (nonlinear_arith)
        requires
            v2 * e2 <= l * mh2,
            kk * l <= d2,
            kk >= 0,
            mh2 >= 0,
    ;
    // The distance times the reach is at most the reach and two, times the
    // distance less one.
    assert(dist * mh <= g * e) by (nonlinear_arith)
        requires
            g == mh + 2,
            e == dist - 1,
            mh <= dist,
            dist >= 2,
    ;
    assert(dist * mh >= 0) by (nonlinear_arith)
        requires
            dist >= 0,
            mh >= 0,
    ;
    lemma_square_monotonic(dist * mh, g * e);
    lemma_regroup(dist, mh, dist, mh);
    lemma_regroup(g, e, g, e);
    assert(kk * v2 <= g2) by (nonlinear_arith)
        requires
            (kk * v2) * e2 <= g2 * e2,
            e2 >= 1,
    ;
    // The triangle inequality, in units of `1 / SCALE`.
    lemma_regroup(k, vx, k, vx);
    lemma_regroup(k, vy, k, vy);
    lemma_regroup(k, w, k, w);
    lemma_regroup(k, h, k, h);
    assert((k * vx) * (k * vx) + (k * vy) * (k * vy) == kk * v2) by (nonlinear_arith)
        requires
            (k * vx) * (k * vx) == kk * (vx * vx),
            (k * vy) * (k * vy) == kk * (vy * vy),
            v2 == vx * vx + vy * vy,
    ;
    assert((k * w) * (k * w) + (k * h) * (k * h) == kk * (w * w + h * h)) by (nonlinear_arith)
        requires
            (k * w) * (k * w) == kk * (w * w),
            (k * h) * (k * h) == kk * (h * h),
    ;
    assert(k * w >= 0 && k * h >= 0) by (nonlinear_arith)
        requires
            k == 4096,
            w >= 0,
            h >= 0,
    ;
    lemma_corner_in_reach(k * vx, k * vy, k * w, k * h, k * w, k * h, g, r);
    let cx = vx + w;
    let cy = vy + h;
    let far = cx * cx + cy * cy;
    lemma_regroup(k, cx, k, cx);
    lemma_regroup(k, cy, k, cy);
    assert(k * vx + k * w == k * cx && k * vy + k * h == k * cy) by (nonlinear_arith)
        requires
            cx == vx + w,
            cy == vy + h,
    ;
    assert(kk * far == (k * cx) * (k * cx) + (k * cy) * (k * cy)) by (nonlinear_arith)
        requires
            (k * cx) * (k * cx) == kk * (cx * cx),
            (k * cy) * (k * cy) == kk * (cy * cy),
            far == cx * cx + cy * cy,
    ;
    // No whole number lies between the square of the diameter and its
    // bound in the finer units.
    assert(g + r == 1908739);
    assert((g + r) * (g + r) == 3643284570121) by (nonlinear_arith)
        requires
            g + r == 1908739,
    ;
    assert(DIAMETER * DIAMETER == 217156) by (nonlinear_arith)
        requires
            DIAMETER == 466,
    ;
    assert(16777216 * far <= 3643284570121);
}

/// A rectangle is visible where the corner that lies furthest from the
/// centre is within the disc: `(cx, cy)` is the middle of its corner pixels
/// on the doubled grid, and `(px, py)` the first pixel for that middle.
proof fn lemma_placed_visible(px: int, py: int, cx: int, cy: int, vx: int, vy: int, w: int, h: int)
    requires
        w >= 1,
        h >= 1,
        2 * px - DIAMETER == cx - (w - 1),
        2 * py - DIAMETER == cy - (h - 1),
        abs(cx) <= vx + 1,
        abs(cy) <= vy + 1,
        (vx + w) * (vx + w) + (vy + h) * (vy + h) <= DIAMETER * DIAMETER,
    ensures
        rect_in_disc(px, py, w, h),
{
    let x1 = cx - (w - 1);
    let x2 = cx + (w - 1);
    let y1 = cy - (h - 1);
    let y2 = cy + (h - 1);
    lemma_square_bound(x1, vx + w);
    lemma_square_bound(x2, vx + w);
    lemma_square_bound(y1, vy + h);
    lemma_square_bound(y2, vy + h);
    lemma_doubled_in_disc(px, py);
    lemma_doubled_in_disc(px + w - 1, py);
    lemma_doubled_in_disc(px, py + h - 1);
    lemma_doubled_in_disc(px + w - 1, py + h - 1);
}

/// The roots that a placement takes: for a rectangle with a diagonal no
/// longer than the diameter the reach is not negative, and for a centre
/// beyond reach the distance is beyond the reach and beyond each offset.
proof fn lemma_fine_roots(w: int, h: int, dx: int, dy: int)
    requires
        w * w + h * h <= DIAMETER * DIAMETER,
    ensures
        abs(w) <= DIAMETER,
        abs(h) <= DIAMETER,
        0 <= reach(w, h) <= DIAMETER * SCALE,
        SCALE * SCALE * (w * w + h * h) <= fine_root(w * w + h * h) * fine_root(w * w + h * h),
        fine_root(w * w + h * h) >= 0,
        SCALE * SCALE * (dx * dx + dy * dy) > reach(w, h) * reach(w, h) ==> {
            let dist = fine_root(dx * dx + dy * dy);
            &&& dist > reach(w, h)
            &&& dist >= 2
            &&& dist > abs(dx)
            &&& dist > abs(dy)
            &&& SCALE * SCALE * (dx * dx + dy * dy) <= dist * dist
        },
{
    let k: int = 4096;
    let kk = k * k;
    assert(kk == SCALE * SCALE && kk == 16777216) by (nonlinear_arith)
        requires
            k == 4096,
            kk == k * k,
            SCALE == 4096,
    ;
    assert(DIAMETER * DIAMETER == 217156) by (nonlinear_arith)
        requires
            DIAMETER == 466,
    ;
    let s = w * w + h * h;
    assert(w * w >= 0 && h * h >= 0) by (nonlinear_arith);
    lemma_root_bound(w, DIAMETER as int);
    lemma_root_bound(h, DIAMETER as int);
    let r = fine_root(s);
    lemma_ceil_sqrt(kk * s);
    let top: int = 1908736;
    assert(top * top == 16777216 * 217156) by (nonlinear_arith)
        requires
            top == 1908736,
    ;
    if r > top {
        lemma_square_monotonic(top, r - 1);
    }
    let m = reach(w, h);
    let l = dx * dx + dy * dy;
    assert(dx * dx >= 0 && dy * dy >= 0) by (nonlinear_arith);
    if kk * l > m * m {
        let dist = fine_root(l);
        lemma_ceil_sqrt(kk * l);
        assert(m * m >= 0) by (nonlinear_arith);
        if dist <= m {
            lemma_square_monotonic(dist, m);
        }
        assert(l >= 1);
        lemma_regroup(k, abs(dx), k, abs(dx));
        lemma_regroup(k, abs(dy), k, abs(dy));
        assert(abs(dx) * abs(dx) == dx * dx && abs(dy) * abs(dy) == dy * dy) by (nonlinear_arith);
        lemma_root_bound(k * abs(dx), dist);
        lemma_root_bound(k * abs(dy), dist);
        lemma_root_bound(k, dist);
    }
}

/// A placement never shows less than it could: for every rectangle whose
/// diagonal is no longer than the diameter of the disc, the place that it is
/// given lies in the disc with all four corners.
pub proof fn lemma_clamp_contained(x: int, y: int, w: int, h: int)
    requires
        w >= 1,
        h >= 1,
        w * w + h * h <= DIAMETER * DIAMETER,
    ensures
        rect_in_disc(clamped(x, y, w, h).0, clamped(x, y, w, h).1, w, h),
{
    lemma_clamp_moved(x, y, w, h);
}

/// What holds of a rectangle that is moved: its centre was beyond reach,
/// and where it is placed it is visible, lies between the place asked for
/// and the centre, and has its centre within one pixel of the projection on
/// each axis.
pub proof fn lemma_clamp_moved(x: int, y: int, w: int, h: int)
    requires
        w >= 1,
        h >= 1,
        w * w + h * h <= DIAMETER * DIAMETER,
    ensures
        rect_in_disc(clamped(x, y, w, h).0, clamped(x, y, w, h).1, w, h),
        pulled_inward(clamped(x, y, w, h).0, x, w),
        pulled_inward(clamped(x, y, w, h).1, y, h),
        moved(x, y, w, h) ==> {
            let dx = 2 * x + w - DIAMETER;
            let dy = 2 * y + h - DIAMETER;
            let m = reach(w, h);
            let dist = fine_root(dx * dx + dy * dy);
            &&& SCALE * SCALE * (dx * dx + dy * dy) > m * m
            &&& near_projection(clamped(x, y, w, h).0, dx, w, m, dist)
            &&& near_projection(clamped(x, y, w, h).1, dy, h, m, dist)
        },
{
    if !rect_in_disc(x, y, w, h) {
        let dx = 2 * x + w - DIAMETER;
        let dy = 2 * y + h - DIAMETER;
        let m = reach(w, h);
        let r = fine_root(w * w + h * h);
        let l = dx * dx + dy * dy;
        lemma_fine_roots(w, h, dx, dy);
        assert(abs(dx) * abs(dx) == dx * dx && abs(dy) * abs(dy) == dy * dy) by (nonlinear_arith);
        if SCALE * SCALE * l <= m * m {
            // A centre within reach: the rectangle would be visible.
            let ax = abs(dx);
            let ay = abs(dy);
            let dist = m + 1;
            assert(ax * dist >= 0 && ay * dist >= 0 && m * m <= dist * dist && ax * (dist - 1)
                <= ax * (m + 1) && ay * (dist - 1) <= ay * (m + 1)) by (nonlinear_arith)
                requires
                    ax >= 0,
                    ay >= 0,
                    m >= 0,
                    dist == m + 1,
            ;
            if dist >= 2 {
                lemma_far_corner(ax, ay, ax, ay, w, h, m, r, dist);
            } else {
                // No reach at all: the centre asked for is the centre of the disc.
                assert(m == 0);
                assert(l == 0) by (nonlinear_arith)
                    requires
                        SCALE * SCALE * l <= m * m,
                        m == 0,
                        SCALE == 4096,
                        l >= 0,
                ;
                assert(ax == 0 && ay == 0) by (nonlinear_arith)
                    requires
                        ax * ax + ay * ay == 0,
                ;
                lemma_far_corner(0, 0, 0, 0, w, h, m, r, 2);
            }
            lemma_placed_visible(x, y, dx - 1, dy - 1, ax, ay, w, h);
        } else {
            let dist = fine_root(l);
            lemma_axis(dx, w, m, dist);
            lemma_axis(dy, h, m, dist);
            let cx = placed_middle(dx, w, m, dist);
            let cy = placed_middle(dy, h, m, dist);
            let vx = if abs(cx) >= 1 {
                abs(cx) - 1
            } else {
                0
            };
            let vy = if abs(cy) >= 1 {
                abs(cy) - 1
            } else {
                0
            };
            lemma_far_corner(vx, vy, abs(dx), abs(dy), w, h, m, r, dist);
            let px = (DIAMETER + cx + 1 - w) / 2;
            let py = (DIAMETER + cy + 1 - h) / 2;
            lemma_placed_visible(px, py, cx, cy, vx, vy, w, h);
        }
    }
}

/// Placing a rectangle where it was placed leaves it there.
pub proof fn lemma_clamp_idempotent(x: int, y: int, w: int, h: int)
    requires
        w >= 1,
        h >= 1,
    ensures
        clamped(clamped(x, y, w, h).0, clamped(x, y, w, h).1, w, h) == clamped(x, y, w, h),
{
    if w * w + h * h <= DIAMETER * DIAMETER {
        lemma_clamp_contained(x, y, w, h);
    }
}

/// Whether `p` lies between the coordinate `at` asked for a rectangle of
/// extent `size` and the coordinate that centres it, along one axis.
pub open spec fn pulled_inward(p: int, at: int, size: int) -> bool {
    if 2 * at + size >= DIAMETER {
        DIAMETER - size <= 2 * p && p <= at
    } else {
        at <= p && 2 * p <= DIAMETER - size + 1
    }
}

/// A placement pulls inward only: along each axis the rectangle is placed
/// between where it was asked for and where it would be centred.
pub proof fn lemma_clamp_pulls_inward(x: int, y: int, w: int, h: int)
    requires
        w >= 1,
        h >= 1,
    ensures
        pulled_inward(clamped(x, y, w, h).0, x, w),
        pulled_inward(clamped(x, y, w, h).1, y, h),
{
    if w * w + h * h <= DIAMETER * DIAMETER {
        lemma_clamp_moved(x, y, w, h);
    }
}

/// A moved rectangle comes to lie on the projection: along each axis its
/// centre is within one pixel of the point where the line from the centre
/// asked for to the centre of the disc meets the circle of the centres
/// within reach.
pub proof fn lemma_clamp_near_projection(x: int, y: int, w: int, h: int)
    requires
        w >= 1,
        h >= 1,
        moved(x, y, w, h),
    ensures
        ({
            let dx = 2 * x + w - DIAMETER;
            let dy = 2 * y + h - DIAMETER;
            let m = reach(w, h);
            let dist = fine_root(dx * dx + dy * dy);
            &&& near_projection(clamped(x, y, w, h).0, dx, w, m, dist)
            &&& near_projection(clamped(x, y, w, h).1, dy, h, m, dist)
        }),
{
    lemma_clamp_moved(x, y, w, h);
}

/// A rectangle that is visible where it stands is left there.
pub proof fn lemma_clamp_keeps_visible(x: int, y: int, w: int, h: int)
    requires
        rect_in_disc(x, y, w, h),
    ensures
        clamped(x, y, w, h) == (x, y),
{
}

/// Half of `v`, rounded toward zero.
fn half(v: i32) -> (r: i32)
    ensures
        r == half_toward_zero(v as int),
{
    if v >= 0 {
        v / 2
    } else {
        let n: i64 = -(v as i64);
        (-(n / 2)) as i32
    }
}

/// The middle of the corner pixels of a moved rectangle along one axis.
fn place_middle(d: i64, size: i64, m: i64, dist: i64) -> (c: i64)
    requires
        0 <= m < dist,
        2 <= dist <= 0x4_0000_0000_0000,
        m <= 0x20_0000,
        -0x4_0000_0000 <= d <= 0x4_0000_0000,
        -0x1_0000 <= size <= 0x1_0000,
        abs(d as int) < dist,
        (d - size) % 2 == 0,
    ensures
        c == placed_middle(d as int, size as int, m as int, dist as int),
        d >= 0 ==> -1 <= c <= d - 1,
        d < 0 ==> d - 1 <= c <= 0,
        (c - (size - 1)) % 2 == 0,
{
    proof {
        lemma_axis(d as int, size as int, m as int, dist as int);
    }
    if d >= 0 {
        proof {
            lemma_product_bound(d as int, m as int, 0x4_0000_0000, 0x20_0000);
            lemma_floor_div(d * m, dist as int);
            if (d * m) / (dist as int) > d {
                lemma_mul_le(d + 1, (d * m) / (dist as int), dist as int);
                assert((d + 1) * dist == d * dist + dist) by (nonlinear_arith);
                assert(d * m <= d * dist) by (nonlinear_arith)
                    requires
                        d >= 0,
                        m <= dist,
                ;
            }
        }
        let up: i64 = (d * m) / dist + 1;
        let inner: i64 = if (up - (size - 1)) % 2 == 0 {
            up
        } else {
            up - 1
        };
        if inner < d - 1 {
            inner
        } else {
            d - 1
        }
    } else {
        let a: i64 = -d;
        proof {
            lemma_product_bound(a as int, m + 1, 0x4_0000_0000, 0x20_0001);
            lemma_ceil_div(a * (m + 1), dist - 1);
        }
        let q: i64 = (a * (m + 1) + dist - 2) / (dist - 1);
        let from: i64 = if q >= 1 {
            q - 1
        } else {
            0
        };
        let outer: i64 = if (from - (size - 1)) % 2 == 0 {
            from
        } else {
            from + 1
        };
        -outer
    }
}

/// Places a `w` by `h` rectangle asked for at `(x, y)` so that it fits
/// within the visible disc, and returns its top-left pixel.
///
/// A rectangle that fits where it is stays there. Otherwise its centre may
/// be no further from the centre of the disc than the radius less half the
/// diagonal of the rectangle: a centre beyond that is pulled back onto that
/// circle along the line to the centre of the disc, and the rectangle is
/// placed on whole pixels within one pixel of that place, where it fits. A
/// rectangle with a diagonal longer than the diameter fits nowhere and is
/// centred.
pub fn clamp_rect_to_display(x: i32, y: i32, w: i32, h: i32) -> (p: (i32, i32))
    ensures
        p.0 == clamped(x as int, y as int, w as int, h as int).0,
        p.1 == clamped(x as int, y as int, w as int, h as int).1,
        w >= 1 && h >= 1 && w * w + h * h <= DIAMETER * DIAMETER ==> rect_in_disc(
            p.0 as int,
            p.1 as int,
            w as int,
            h as int,
        ),
        w >= 1 && h >= 1 ==> clamped(p.0 as int, p.1 as int, w as int, h as int) == (
            p.0 as int,
            p.1 as int,
        ),
        w >= 1 && h >= 1 ==> pulled_inward(p.0 as int, x as int, w as int) && pulled_inward(
            p.1 as int,
            y as int,
            h as int,
        ),
        w >= 1 && h >= 1 && moved(x as int, y as int, w as int, h as int) ==> {
            let dx = 2 * x + w - DIAMETER;
            let dy = 2 * y + h - DIAMETER;
            let m = reach(w as int, h as int);
            let dist = fine_root(dx * dx + dy * dy);
            &&& near_projection(p.0 as int, dx, w as int, m, dist)
            &&& near_projection(p.1 as int, dy, h as int, m, dist)
        },
{
    proof {
        if w >= 1 && h >= 1 {
            if w * w + h * h <= DIAMETER * DIAMETER {
                lemma_clamp_moved(x as int, y as int, w as int, h as int);
            }
            lemma_clamp_idempotent(x as int, y as int, w as int, h as int);
            lemma_clamp_pulls_inward(x as int, y as int, w as int, h as int);
        }
    }
    if rect_in_display(x, y, w, h) {
        return (x, y);
    }
    let ghost big: int = 0x8000_0000;
    proof {
        lemma_square_bound(w as int, big);
        lemma_square_bound(h as int, big);
        assert(big * big == 0x4000_0000_0000_0000) by (nonlinear_arith)
            requires
                big == 0x8000_0000,
        ;
        assert(DIAMETER * DIAMETER == 217156) by (nonlinear_arith)
            requires
                DIAMETER == 466,
        ;
        assert(SCALE * SCALE == 16777216) by (nonlinear_arith)
            requires
                SCALE == 4096,
        ;
    }
    let diag2: i128 = (w as i128) * (w as i128) + (h as i128) * (h as i128);
    if diag2 > 217156 {
        return (DISPLAY_CX - half(w), DISPLAY_CY - half(h));
    }
    let dx: i64 = 2 * (x as i64) + (w as i64) - DIAMETER;
    let dy: i64 = 2 * (y as i64) + (h as i64) - DIAMETER;
    proof {
        lemma_fine_roots(w as int, h as int, dx as int, dy as int);
    }
    let diag: i64 = isqrt_ceil((diag2 as u128) * 16777216) as i64;
    let m: i64 = DIAMETER * SCALE - diag;
    let ghost wide: int = 0x2_0000_0000;
    proof {
        lemma_square_bound(dx as int, wide);
        lemma_square_bound(dy as int, wide);
        lemma_square_bound(m as int, 0x20_0000);
        assert(wide * wide == 0x4_0000_0000_0000_0000) by (nonlinear_arith)
            requires
                wide == 0x2_0000_0000,
        ;
        assert(0x20_0000int * 0x20_0000int == 0x400_0000_0000int) by (nonlinear_arith);
    }
    let len2: i128 = (dx as i128) * (dx as i128) + (dy as i128) * (dy as i128);
    if len2 * 16777216 <= (m as i128) * (m as i128) {
        return (x, y);
    }
    let dist: i64 = isqrt_ceil((len2 as u128) * 16777216) as i64;
    let cx: i64 = place_middle(dx, w as i64, m, dist);
    let cy: i64 = place_middle(dy, h as i64, m, dist);
    let px: i64 = (DIAMETER + cx + 1 - (w as i64)) / 2;
    let py: i64 = (DIAMETER + cy + 1 - (h as i64)) / 2;
    (px as i32, py as i32)
}

} // verus!
