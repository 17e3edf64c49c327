//! Geometry primitives: 2-D vectors, axis-aligned rectangles, circle versus
//! rectangle intersection, and the integer square root used to renormalize
//! the ball's velocity.

use vstd::prelude::*;
use crate::config::{
    BALL_SPEED, MIN_PRENORM_SQ, POS_MARGIN, SCREEN_HEIGHT, SCREEN_WIDTH, SPEED_SQ_MAX,
    SPEED_SQ_MIN, VEL_LIMIT,
};

verus! {

use vstd::arithmetic::div_mod::{lemma_fundamental_div_mod, lemma_mod_bound};

/// A 2-D vector (or point) in micropixels.
#[derive(Clone, Copy, PartialEq, Eq, Structural, Debug)]
pub struct Vec2 {
    pub x: i64,
    pub y: i64,
}

/// Mathematical model of a vector: an unbounded integer pair.
#[verifier::ext_equal]
pub ghost struct Vec2V {
    pub x: int,
    pub y: int,
}

impl View for Vec2 {
    type V = Vec2V;

    open spec fn view(&self) -> Vec2V {
        Vec2V { x: self.x as int, y: self.y as int }
    }
}

impl Vec2 {
    pub fn new(x: i64, y: i64) -> (r: Vec2)
        ensures
            r@ == (Vec2V { x: x as int, y: y as int }),
    {
        Vec2 { x, y }
    }
}

/// An axis-aligned rectangle; the origin is its top-left corner and y grows
/// downward (screen coordinates).
#[derive(Clone, Copy, PartialEq, Eq, Structural, Debug)]
pub struct Rect {
    pub x: i64,
    pub y: i64,
    pub w: i64,
    pub h: i64,
}

#[verifier::ext_equal]
pub ghost struct RectV {
    pub x: int,
    pub y: int,
    pub w: int,
    pub h: int,
}

impl View for Rect {
    type V = RectV;

    open spec fn view(&self) -> RectV {
        RectV { x: self.x as int, y: self.y as int, w: self.w as int, h: self.h as int }
    }
}

pub open spec fn clamp_v(x: int, lo: int, hi: int) -> int {
    if x < lo {
        lo
    } else if x > hi {
        hi
    } else {
        x
    }
}

/// Clamp `x` into `[lo, hi]`; `lo` wins when the interval is empty.
pub fn clamp_i64(x: i64, lo: i64, hi: i64) -> (r: i64)
    ensures
        r == clamp_v(x as int, lo as int, hi as int),
{
    if x < lo {
        lo
    } else if x > hi {
        hi
    } else {
        x
    }
}

pub open spec fn abs_v(x: int) -> int {
    if x < 0 {
        -x
    } else {
        x
    }
}

/// A square grows with the magnitude of its root.
pub proof fn lemma_square_bound(x: int, b: int)
    requires
        -b <= x <= b,
    ensures
        0 <= x * x <= b * b,
{
    assert(0 <= x * x <= b * b) by (nonlinear_arith)
        requires
            -b <= x <= b,
    ;
}

/// Negating a number does not change its square.
pub proof fn lemma_neg_square(a: int)
    ensures
        (-a) * (-a) == a * a,
{
    assert((-a) * (-a) == a * a) by (nonlinear_arith);
}

/// The integer square root, defined by counting up: the largest `r` with
/// `r * r <= n` (and `0` for negative arguments).
pub open spec fn sqrt_floor(n: int) -> int
    decreases n,
{
    if n <= 0 {
        0
    } else {
        let p = sqrt_floor(n - 1);
        if (p + 1) * (p + 1) <= n {
            p + 1
        } else {
            p
        }
    }
}

pub proof fn lemma_sqrt_floor(n: int)
    requires
        n >= 0,
    ensures
        sqrt_floor(n) >= 0,
        sqrt_floor(n) * sqrt_floor(n) <= n,
        n < (sqrt_floor(n) + 1) * (sqrt_floor(n) + 1),
    decreases n,
{
    if n > 0 {
        lemma_sqrt_floor(n - 1);
        let p = sqrt_floor(n - 1);
        if (p + 1) * (p + 1) <= n {
            assert((p + 2) * (p + 2) == (p + 1) * (p + 1) + 2 * p + 3) by (nonlinear_arith);
        }
    }
}

/// The defining bounds pin the square root down uniquely.
pub proof fn lemma_sqrt_floor_unique(n: int, r: int)
    requires
        n >= 0,
        r >= 0,
        r * r <= n,
        n < (r + 1) * (r + 1),
    ensures
        r == sqrt_floor(n),
{
    lemma_sqrt_floor(n);
    let s = sqrt_floor(n);
    if r < s {
        assert((r + 1) * (r + 1) <= s * s) by (nonlinear_arith)
            requires
                0 <= r + 1 <= s,
        ;
    }
    if s < r {
        assert((s + 1) * (s + 1) <= r * r) by (nonlinear_arith)
            requires
                0 <= s + 1 <= r,
        ;
    }
}

/// Binary search for the integer square root.
pub fn isqrt(n: u64) -> (r: u64)
    requires
        n <= 4_000_000_000_000,
    ensures
        r == sqrt_floor(n as int),
{
    let mut lo: u64 = 0;
    let mut hi: u64 = 2_200_000;
    assert(4_000_000_000_000 < 2_200_000u64 * 2_200_000u64) by (nonlinear_arith);
    while lo + 1 < hi
        invariant
            0 <= lo < hi <= 2_200_000,
            lo * lo <= n,
            n < hi * hi,
        decreases hi - lo,
    {
        let mid = lo + (hi - lo) / 2;
        proof {
            lemma_square_bound(mid as int, 2_200_000);
        }
        if mid * mid <= n {
            lo = mid;
        } else {
            hi = mid;
        }
    }
    proof {
        lemma_sqrt_floor_unique(n as int, lo as int);
    }
    lo
}

/// A circle intersects a rectangle when the rectangle's nearest point to the
/// circle's centre lies within the radius (boundary contact counts).
pub open spec fn circle_hits_rect(cx: int, cy: int, radius: int, r: RectV) -> bool {
    let nx = clamp_v(cx, r.x, r.x + r.w);
    let ny = clamp_v(cy, r.y, r.y + r.h);
    (cx - nx) * (cx - nx) + (cy - ny) * (cy - ny) <= radius * radius
}

/// Executable circle versus rectangle test.  The bounds keep the squared
/// distances inside `i64`.
pub fn circle_hits_rect_ex(c: Vec2, radius: i64, r: Rect) -> (hit: bool)
    requires
        -500_000_000 <= c.x <= 1_500_000_000,
        -500_000_000 <= c.y <= 1_500_000_000,
        0 <= r.x <= r.x + r.w <= 1_000_000_000,
        0 <= r.y <= r.y + r.h <= 1_000_000_000,
        0 <= radius <= 100_000_000,
    ensures
        hit == circle_hits_rect(c.x as int, c.y as int, radius as int, r@),
{
    let nx = clamp_i64(c.x, r.x, r.x + r.w);
    let ny = clamp_i64(c.y, r.y, r.y + r.h);
    let dx = c.x - nx;
    let dy = c.y - ny;
    proof {
        lemma_square_bound(dx as int, 2_000_000_000);
        lemma_square_bound(dy as int, 2_000_000_000);
        lemma_square_bound(radius as int, 100_000_000);
    }
    dx * dx + dy * dy <= radius * radius
}

/// The ball centre's horizontal coordinate never leaves this range.
pub open spec fn pos_x_ok(x: int) -> bool {
    -POS_MARGIN <= x <= SCREEN_WIDTH + POS_MARGIN
}

/// The ball centre's vertical coordinate never leaves this range.
pub open spec fn pos_y_ok(y: int) -> bool {
    -POS_MARGIN <= y <= SCREEN_HEIGHT + POS_MARGIN
}

pub open spec fn sq_mag(v: Vec2V) -> int {
    v.x * v.x + v.y * v.y
}

/// The magnitude `a` of one velocity component, rescaled by `BALL_SPEED / m`
/// with rounding to nearest.
pub open spec fn rescaled_mag(a: int, m: int) -> int {
    (a * BALL_SPEED + m / 2) / m
}

pub open spec fn with_sign(orig: int, mag: int) -> int {
    if orig < 0 {
        -mag
    } else {
        mag
    }
}

/// Renormalization of a velocity to the fixed ball speed: the direction is
/// kept and the magnitude is rescaled to `BALL_SPEED`, up to integer
/// rounding.  The zero vector is left unchanged.
pub open spec fn normalize_spec(v: Vec2V) -> Vec2V {
    if v.x == 0 && v.y == 0 {
        v
    } else {
        let m = sqrt_floor(sq_mag(v));
        Vec2V {
            x: with_sign(v.x, rescaled_mag(abs_v(v.x), m)),
            y: with_sign(v.y, rescaled_mag(abs_v(v.y), m)),
        }
    }
}

/// Division facts about a rescaled component magnitude.
proof fn lemma_mag_div_facts(a: int, m: int)
    requires
        1 <= m,
        0 <= a <= m,
    ensures
        0 <= rescaled_mag(a, m) <= BALL_SPEED,
        a == 0 ==> rescaled_mag(a, m) == 0,
        (1 <= a && m < 2 * BALL_SPEED) ==> 1 <= rescaled_mag(a, m),
        m * rescaled_mag(a, m) <= a * BALL_SPEED + m / 2,
        a * BALL_SPEED <= m * rescaled_mag(a, m) + m / 2,
{
    let s = BALL_SPEED as int;
    let h = m / 2;
    let t = a * s + h;
    let q = t / m;
    lemma_fundamental_div_mod(m, 2);
    lemma_mod_bound(m, 2);
    assert(2 * h <= m && m <= 2 * h + 1);
    lemma_fundamental_div_mod(t, m);
    lemma_mod_bound(t, m);
    assert(m * q <= t && t < m * q + m);
    assert(q >= 0) by (nonlinear_arith)
        requires
            m >= 1,
            m * q > -m,
    ;
    assert(q <= s) by (nonlinear_arith)
        requires
            m >= 1,
            m * q <= m * s + m - 1,
    ;
    if a == 0 {
        assert(q == 0) by (nonlinear_arith)
            requires
                m >= 1,
                q >= 0,
                m * q < m,
        ;
    }
    if 1 <= a && m < 2 * s {
        assert(h < s);
        assert(t >= m);
        assert(q >= 1) by (nonlinear_arith)
            requires
                m >= 1,
                m * q + m > m,
        ;
    }
}

/// Rescaling a nonzero velocity lands its squared magnitude in the fixed
/// band around `BALL_SPEED * BALL_SPEED`, provided the input was at least
/// half the ball speed long.
pub proof fn lemma_normalize_band(v: Vec2V)
    requires
        abs_v(v.x) <= VEL_LIMIT,
        abs_v(v.y) <= VEL_LIMIT,
        MIN_PRENORM_SQ <= sq_mag(v),
    ensures
        SPEED_SQ_MIN <= sq_mag(normalize_spec(v)) <= SPEED_SQ_MAX,
{
    let ax = abs_v(v.x);
    let ay = abs_v(v.y);
    let m2 = sq_mag(v);
    assert(ax * ax + ay * ay == m2 && 0 <= ax * ax && 0 <= ay * ay) by (nonlinear_arith)
        requires
            ax == v.x || ax == -v.x,
            ay == v.y || ay == -v.y,
            m2 == v.x * v.x + v.y * v.y,
    ;
    lemma_square_bound(ax, VEL_LIMIT as int);
    lemma_square_bound(ay, VEL_LIMIT as int);
    assert(m2 <= 1_280_000_000_000);
    let m = sqrt_floor(m2);
    lemma_sqrt_floor(m2);
    assert(m >= 315_000) by (nonlinear_arith)
        requires
            m2 >= 99_225_000_000,
            m2 < (m + 1) * (m + 1),
            m >= 0,
    ;
    assert(m < 1_260_000) by (nonlinear_arith)
        requires
            m * m <= m2,
            m2 <= 1_280_000_000_000,
            m >= 0,
    ;
    assert(ax <= m && ay <= m) by (nonlinear_arith)
        requires
            0 <= ax * ax,
            0 <= ay * ay,
            ax * ax + ay * ay < (m + 1) * (m + 1),
            ax >= 0,
            ay >= 0,
            m >= 0,
    ;
    let h = m / 2;
    lemma_fundamental_div_mod(m, 2);
    lemma_mod_bound(m, 2);
    assert(2 * h <= m && m <= 2 * h + 1 && h >= 0);
    lemma_mag_div_facts(ax, m);
    lemma_mag_div_facts(ay, m);
    let qx = rescaled_mag(ax, m);
    let qy = rescaled_mag(ay, m);
    let n = normalize_spec(v);
    assert(n.x == with_sign(v.x, qx) && n.y == with_sign(v.y, qy));
    let q2 = qx * qx + qy * qy;
    assert(sq_mag(n) == q2) by (nonlinear_arith)
        requires
            n.x == qx || n.x == -qx,
            n.y == qy || n.y == -qy,
            sq_mag(n) == n.x * n.x + n.y * n.y,
            q2 == qx * qx + qy * qy,
    ;
    assert(m2 <= m * m + 2 * m) by (nonlinear_arith)
        requires
            m2 < (m + 1) * (m + 1),
    ;

    // Upper end of the band.
    let ux = ax * 630_000 + h;
    let uy = ay * 630_000 + h;
    assert(m * qx <= ux && m * qy <= uy);
    assert(0 <= m * qx && 0 <= m * qy) by (nonlinear_arith)
        requires
            m >= 0,
            qx >= 0,
            qy >= 0,
    ;
    assert((m * qx) * (m * qx) <= ux * ux) by (nonlinear_arith)
        requires
            0 <= m * qx,
            m * qx <= ux,
    ;
    assert((m * qy) * (m * qy) <= uy * uy) by (nonlinear_arith)
        requires
            0 <= m * qy,
            m * qy <= uy,
    ;
    assert(ux * ux == 396_900_000_000 * (ax * ax) + 1_260_000 * (ax * h) + h * h)
        by (nonlinear_arith)
        requires
            ux == ax * 630_000 + h,
    ;
    assert(uy * uy == 396_900_000_000 * (ay * ay) + 1_260_000 * (ay * h) + h * h)
        by (nonlinear_arith)
        requires
            uy == ay * 630_000 + h,
    ;
    assert(ax * h + ay * h <= m * m) by (nonlinear_arith)
        requires
            0 <= ax <= m,
            0 <= ay <= m,
            0 <= 2 * h <= m,
    ;
    assert(h * h + h * h <= m * m) by (nonlinear_arith)
        requires
            0 <= 2 * h <= m,
    ;
    assert(396_900_000_000 * (ax * ax) + 396_900_000_000 * (ay * ay) <= 396_900_000_000 * (m * m)
        + 793_800_000_000 * m) by (nonlinear_arith)
        requires
            0 <= ax * ax,
            0 <= ay * ay,
            ax * ax + ay * ay <= m * m + 2 * m,
    ;
    assert((m * qx) * (m * qx) == m * m * (qx * qx)) by (nonlinear_arith);
    assert((m * qy) * (m * qy) == m * m * (qy * qy)) by (nonlinear_arith);
    assert(m * m * (qx * qx) + m * m * (qy * qy) == m * m * q2) by (nonlinear_arith)
        requires
            q2 == qx * qx + qy * qy,
    ;
    assert(m * m * q2 <= 396_901_260_001 * (m * m) + 793_800_000_000 * m);
    assert(q2 <= 396_905_040_000) by (nonlinear_arith)
        requires
            m >= 315_000,
            m * m * q2 <= 396_901_260_001 * (m * m) + 793_800_000_000 * m,
    ;

    // Lower end of the band.
    let wx = m * qx + h;
    let wy = m * qy + h;
    assert(ax * 630_000 <= wx && ay * 630_000 <= wy);
    assert((ax * 630_000) * (ax * 630_000) <= wx * wx) by (nonlinear_arith)
        requires
            0 <= ax * 630_000,
            ax * 630_000 <= wx,
    ;
    assert((ay * 630_000) * (ay * 630_000) <= wy * wy) by (nonlinear_arith)
        requires
            0 <= ay * 630_000,
            ay * 630_000 <= wy,
    ;
    assert((ax * 630_000) * (ax * 630_000) == 396_900_000_000 * (ax * ax)) by (nonlinear_arith);
    assert((ay * 630_000) * (ay * 630_000) == 396_900_000_000 * (ay * ay)) by (nonlinear_arith);
    assert(wx * wx == (m * qx) * (m * qx) + 2 * ((m * qx) * h) + h * h) by (nonlinear_arith)
        requires
            wx == m * qx + h,
    ;
    assert(wy * wy == (m * qy) * (m * qy) + 2 * ((m * qy) * h) + h * h) by (nonlinear_arith)
        requires
            wy == m * qy + h,
    ;
    assert((m * qx) * h + (m * qy) * h <= 630_000 * (m * m)) by (nonlinear_arith)
        requires
            0 <= qx <= 630_000,
            0 <= qy <= 630_000,
            0 <= 2 * h <= m,
            m >= 0,
    ;
    assert(396_900_000_000 * (m * m) <= 396_900_000_000 * (ax * ax) + 396_900_000_000 * (ay * ay))
        by (nonlinear_arith)
        requires
            m * m <= ax * ax + ay * ay,
    ;
    assert(396_900_000_000 * (m * m) <= m * m * q2 + 1_260_001 * (m * m));
    assert(q2 >= 396_897_480_000) by (nonlinear_arith)
        requires
            m >= 1,
            396_900_000_000 * (m * m) <= m * m * q2 + 1_260_001 * (m * m),
    ;
}

/// Basic shape facts about renormalization: component signs are kept
/// strictly, zero components stay zero, and no component exceeds the ball
/// speed.
pub proof fn lemma_normalize_basic(v: Vec2V)
    requires
        abs_v(v.x) <= VEL_LIMIT,
        abs_v(v.y) <= VEL_LIMIT,
    ensures
        abs_v(normalize_spec(v).x) <= BALL_SPEED,
        abs_v(normalize_spec(v).y) <= BALL_SPEED,
        v.x == 0 ==> normalize_spec(v).x == 0,
        v.y == 0 ==> normalize_spec(v).y == 0,
        v.x > 0 ==> normalize_spec(v).x >= 1,
        v.x < 0 ==> normalize_spec(v).x <= -1,
        v.y > 0 ==> normalize_spec(v).y >= 1,
        v.y < 0 ==> normalize_spec(v).y <= -1,
{
    if v.x == 0 && v.y == 0 {
    } else {
        let ax = abs_v(v.x);
        let ay = abs_v(v.y);
        let m2 = sq_mag(v);
        assert(ax * ax + ay * ay == m2 && 0 <= ax * ax && 0 <= ay * ay && m2 >= 1)
            by (nonlinear_arith)
            requires
                ax == v.x || ax == -v.x,
                ay == v.y || ay == -v.y,
                ax >= 1 || ay >= 1,
                ax >= 0,
                ay >= 0,
                m2 == v.x * v.x + v.y * v.y,
        ;
        lemma_square_bound(ax, VEL_LIMIT as int);
        lemma_square_bound(ay, VEL_LIMIT as int);
        let m = sqrt_floor(m2);
        lemma_sqrt_floor(m2);
        assert(m >= 1) by (nonlinear_arith)
            requires
                m2 >= 1,
                m2 < (m + 1) * (m + 1),
                m >= 0,
        ;
        assert(m < 1_260_000) by (nonlinear_arith)
            requires
                m * m <= m2,
                m2 <= 1_280_000_000_000,
                m >= 0,
        ;
        assert(ax <= m && ay <= m) by (nonlinear_arith)
            requires
                0 <= ax * ax,
                0 <= ay * ay,
                ax * ax + ay * ay < (m + 1) * (m + 1),
                ax >= 0,
                ay >= 0,
                m >= 0,
        ;
        lemma_mag_div_facts(ax, m);
        lemma_mag_div_facts(ay, m);
    }
}

/// Changing one component of a vector by at most `e` shrinks its magnitude
/// by at most `e`: the reverse triangle inequality, squared.
pub proof fn lemma_shift_keeps_magnitude(x: int, y: int, x2: int, e: int, l: int)
    requires
        x * x + y * y >= l * l,
        0 <= e <= l,
        x - e <= x2 <= x + e,
    ensures
        x2 * x2 + y * y >= (l - e) * (l - e),
{
    let a2 = abs_v(x2);
    assert(a2 == x2 || a2 == -x2);
    assert(a2 >= 0);
    if a2 >= l - e {
        assert(x2 * x2 >= (l - e) * (l - e)) by (nonlinear_arith)
            requires
                x2 == a2 || x2 == -a2,
                a2 >= l - e,
                l - e >= 0,
        ;
        assert(y * y >= 0) by (nonlinear_arith);
    } else {
        assert(x * x <= (a2 + e) * (a2 + e)) by (nonlinear_arith)
            requires
                -(a2 + e) <= x <= a2 + e,
        ;
        assert(y * y >= l * l - (a2 + e) * (a2 + e));
        assert(x2 * x2 + y * y >= (l - e) * (l - e)) by (nonlinear_arith)
            requires
                y * y >= l * l - (a2 + e) * (a2 + e),
                x2 == a2 || x2 == -a2,
                0 <= a2,
                a2 + e < l,
                0 <= e,
        ;
    }
}

/// Renormalize a velocity to the fixed ball speed.
pub fn normalize_to_speed(v: Vec2) -> (r: Vec2)
    requires
        -VEL_LIMIT <= v.x <= VEL_LIMIT,
        -VEL_LIMIT <= v.y <= VEL_LIMIT,
    ensures
        r@ == normalize_spec(v@),
{
    if v.x == 0 && v.y == 0 {
        return v;
    }
    proof {
        lemma_square_bound(v.x as int, VEL_LIMIT as int);
        lemma_square_bound(v.y as int, VEL_LIMIT as int);
    }
    let m2: i64 = v.x * v.x + v.y * v.y;
    proof {
        assert(m2 >= 1) by (nonlinear_arith)
            requires
                m2 == v.x * v.x + v.y * v.y,
                v.x != 0 || v.y != 0,
        ;
        lemma_sqrt_floor(m2 as int);
    }
    let m: u64 = isqrt(m2 as u64);
    proof {
        assert(m >= 1) by (nonlinear_arith)
            requires
                m2 >= 1,
                m2 < (m + 1) * (m + 1),
                m >= 0,
        ;
    }
    let ax: u64 = (if v.x < 0 {
        -v.x
    } else {
        v.x
    }) as u64;
    let ay: u64 = (if v.y < 0 {
        -v.y
    } else {
        v.y
    }) as u64;
    proof {
        assert(ax * ax + ay * ay == m2 && 0 <= ax * ax && 0 <= ay * ay) by (nonlinear_arith)
            requires
                ax == v.x || ax == -v.x,
                ay == v.y || ay == -v.y,
                m2 == v.x * v.x + v.y * v.y,
        ;
        assert(ax <= m && ay <= m) by (nonlinear_arith)
            requires
                0 <= ax * ax,
                0 <= ay * ay,
                ax * ax + ay * ay < (m + 1) * (m + 1),
                ax >= 0,
                ay >= 0,
                m >= 0,
        ;
        lemma_mag_div_facts(ax as int, m as int);
        lemma_mag_div_facts(ay as int, m as int);
    }
    let h: u64 = m / 2;
    let qx: u64 = (ax * 630_000 + h) / m;
    let qy: u64 = (ay * 630_000 + h) / m;
    let rx: i64 = if v.x < 0 {
        -(qx as i64)
    } else {
        qx as i64
    };
    let ry: i64 = if v.y < 0 {
        -(qy as i64)
    } else {
        qy as i64
    };
    Vec2 { x: rx, y: ry }
}

} // verus!
