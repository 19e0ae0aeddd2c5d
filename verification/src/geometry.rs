//! Geometry primitives shared by the whole core: 2D vectors, axis-aligned
//! rectangles, colors, and the integer arithmetic helpers (clamping,
//! truncating division, integer square root) that the collision code is
//! specified with.

use vstd::prelude::*;

verus! {

/// Largest magnitude allowed for sizes, radii, speeds, time deltas and
/// screen dimensions. Keeps every product computed by the collision
/// routines inside `i64`.
pub const GEOM_LIMIT: i64 = 300_000;

/// Largest magnitude allowed for ball and paddle coordinates. Entities may
/// drift past the screen (large time steps, collision push-out), so the
/// bound is looser than `GEOM_LIMIT`.
pub const POS_LIMIT: i64 = 1_200_000;

/// A plain 2D vector on the integer coordinate grid.
#[derive(Clone, Copy, Debug, PartialEq, Eq, Structural)]
pub struct SimpleVec2 {
    pub x: i64,
    pub y: i64,
}

impl SimpleVec2 {
    pub fn new(x: i64, y: i64) -> (v: SimpleVec2)
        ensures
            v.x == x,
            v.y == y,
    {
        SimpleVec2 { x, y }
    }
}

/// An axis-aligned rectangle with top-left origin; `y` grows downward.
#[derive(Clone, Copy, Debug, PartialEq, Eq, Structural)]
pub struct Rect {
    pub x: i64,
    pub y: i64,
    pub w: i64,
    pub h: i64,
}

impl Rect {
    /// A rectangle whose corner, width and height are small enough for the
    /// collision arithmetic.
    pub open spec fn wf(self) -> bool {
        &&& -GEOM_LIMIT <= self.x <= GEOM_LIMIT
        &&& -GEOM_LIMIT <= self.y <= GEOM_LIMIT
        &&& 0 <= self.w <= GEOM_LIMIT
        &&& 0 <= self.h <= GEOM_LIMIT
    }

    pub fn new(x: i64, y: i64, w: i64, h: i64) -> (r: Rect)
        ensures
            r == (Rect { x, y, w, h }),
    {
        Rect { x, y, w, h }
    }
}

/// An RGBA color with 8-bit channels. The core never interprets colors; it
/// only stores them for the renderer to read back.
#[derive(Clone, Copy, Debug, PartialEq, Eq, Structural)]
pub struct Color {
    pub r: u8,
    pub g: u8,
    pub b: u8,
    pub a: u8,
}

impl Color {
    /// A fully opaque color.
    pub fn rgb(r: u8, g: u8, b: u8) -> (c: Color)
        ensures
            c == (Color { r, g, b, a: 255u8 }),
    {
        Color { r, g, b, a: 255 }
    }
}

/// `v` forced into `[lo, hi]`.
pub open spec fn clamp_spec(v: int, lo: int, hi: int) -> int {
    if v < lo {
        lo
    } else if v > hi {
        hi
    } else {
        v
    }
}

pub fn clamp_i64(v: i64, lo: i64, hi: i64) -> (r: i64)
    requires
        lo <= hi,
    ensures
        r == clamp_spec(v as int, lo as int, hi as int),
        lo <= r <= hi,
{
    if v < lo {
        lo
    } else if v > hi {
        hi
    } else {
        v
    }
}

/// Division rounding toward zero, the rounding used throughout the collision
/// arithmetic. Defined for positive divisors.
pub open spec fn div_trunc_spec(a: int, b: int) -> int
    recommends
        b >= 1,
{
    if a >= 0 {
        a / b
    } else {
        -((-a) / b)
    }
}

pub fn div_trunc(a: i64, b: i64) -> (q: i64)
    requires
        b >= 1,
        a > i64::MIN,
    ensures
        q == div_trunc_spec(a as int, b as int),
{
    if a >= 0 {
        let n: u64 = a as u64;
        let d: u64 = b as u64;
        let r: u64 = n / d;
        assert(r == a as int / b as int) by {
            vstd::arithmetic::div_mod::lemma_div_nonincreasing(a as int, b as int);
            vstd::arithmetic::div_mod::lemma_div_pos_is_pos(a as int, b as int);
        };
        r as i64
    } else {
        let n: u64 = (-a) as u64;
        let d: u64 = b as u64;
        let r: u64 = n / d;
        assert(r == (-a) as int / b as int && r <= (-a) as int) by {
            vstd::arithmetic::div_mod::lemma_div_nonincreasing(-a as int, b as int);
            vstd::arithmetic::div_mod::lemma_div_pos_is_pos(-a as int, b as int);
        };
        -(r as i64)
    }
}

/// Truncating division shrinks magnitudes: `|a| <= b * k` gives a quotient
/// in `[-k, k]`.
pub proof fn lemma_div_trunc_bound(a: int, b: int, k: int)
    requires
        b >= 1,
        k >= 0,
        -(b * k) <= a <= b * k,
    ensures
        -k <= div_trunc_spec(a, b) <= k,
{
    if a >= 0 {
        vstd::arithmetic::div_mod::lemma_div_pos_is_pos(a, b);
        vstd::arithmetic::div_mod::lemma_div_is_ordered(a, b * k, b);
        vstd::arithmetic::div_mod::lemma_div_multiples_vanish(k, b);
    } else {
        vstd::arithmetic::div_mod::lemma_div_pos_is_pos(-a, b);
        vstd::arithmetic::div_mod::lemma_div_is_ordered(-a, b * k, b);
        vstd::arithmetic::div_mod::lemma_div_multiples_vanish(k, b);
    }
}

/// Truncating division leaves a remainder strictly smaller than the
/// divisor: `a - b * div_trunc_spec(a, b)` lies strictly between `-b` and
/// `b`.
pub proof fn lemma_div_trunc_remainder(a: int, b: int)
    requires
        b >= 1,
    ensures
        -b < a - b * div_trunc_spec(a, b) < b,
{
    if a >= 0 {
        vstd::arithmetic::div_mod::lemma_fundamental_div_mod(a, b);
        vstd::arithmetic::div_mod::lemma_mod_bound(a, b);
    } else {
        vstd::arithmetic::div_mod::lemma_fundamental_div_mod(-a, b);
        vstd::arithmetic::div_mod::lemma_mod_bound(-a, b);
        assert(b * -((-a) / b) == -(b * ((-a) / b))) by (nonlinear_arith);
    }
}

/// Truncating division is exact on multiples of the divisor.
pub proof fn lemma_div_trunc_exact(k: int, b: int)
    requires
        b >= 1,
    ensures
        div_trunc_spec(k * b, b) == k,
{
    if k >= 0 {
        vstd::arithmetic::div_mod::lemma_div_multiples_vanish(k, b);
        assert(k * b == b * k) by (nonlinear_arith);
    } else {
        vstd::arithmetic::div_mod::lemma_div_multiples_vanish(-k, b);
        assert(-(k * b) == b * -k) by (nonlinear_arith);
    }
}

/// The integer square root, `floor(sqrt(n))`, defined by counting up.
pub open spec fn sqrt_floor(n: int) -> int
    decreases n,
{
    if n < 1 {
        0
    } else {
        let r = sqrt_floor(n - 1);
        if (r + 1) * (r + 1) <= n {
            r + 1
        } else {
            r
        }
    }
}

/// `sqrt_floor(n)` is the unique nonnegative root with `r^2 <= n < (r+1)^2`.
pub proof fn lemma_sqrt_floor_bounds(n: int)
    requires
        n >= 0,
    ensures
        0 <= sqrt_floor(n),
        sqrt_floor(n) * sqrt_floor(n) <= n,
        n < (sqrt_floor(n) + 1) * (sqrt_floor(n) + 1),
    decreases n,
{
    if n >= 1 {
        lemma_sqrt_floor_bounds(n - 1);
        let r = sqrt_floor(n - 1);
        assert(r * r <= n - 1 < (r + 1) * (r + 1));
        if (r + 1) * (r + 1) <= n {
            assert(sqrt_floor(n) == r + 1);
            assert(n - 1 < (r + 1) * (r + 1));
            assert((r + 2) * (r + 2) > (r + 1) * (r + 1)) by (nonlinear_arith)
                requires
                    r >= 0,
            ;
        }
    }
}

/// Any `r` in the root bracket equals `sqrt_floor(n)`.
pub proof fn lemma_sqrt_floor_unique(n: int, r: int)
    requires
        n >= 0,
        r >= 0,
        r * r <= n,
        n < (r + 1) * (r + 1),
    ensures
        r == sqrt_floor(n),
{
    lemma_sqrt_floor_bounds(n);
    let s = sqrt_floor(n);
    assert(r < s + 1 && s < r + 1) by (nonlinear_arith)
        requires
            r >= 0,
            s >= 0,
            r * r <= n,
            n < (r + 1) * (r + 1),
            s * s <= n,
            n < (s + 1) * (s + 1),
    ;
}

/// Binary-search integer square root.
pub fn isqrt_u64(n: u64) -> (r: u64)
    requires
        n < 0x4000_0000_0000_0000,
    ensures
        r * r <= n < (r + 1) * (r + 1),
        r == sqrt_floor(n as int),
{
    let mut lo: u64 = 0;
    let mut hi: u64 = 0x8000_0000;
    assert(0x8000_0000int * 0x8000_0000int == 0x4000_0000_0000_0000int) by (nonlinear_arith);
    while lo + 1 < hi
        invariant
            lo < hi <= 0x8000_0000,
            lo * lo <= n,
            n < hi * hi,
        decreases hi - lo,
    {
        let mid: u64 = lo + (hi - lo) / 2;
        assert(lo < mid < hi);
        assert(mid * mid < 0x4000_0000_0000_0000) by (nonlinear_arith)
            requires
                0 <= mid < 0x8000_0000u64,
        ;
        if mid * mid <= n {
            lo = mid;
        } else {
            hi = mid;
        }
    }
    proof {
        lemma_sqrt_floor_unique(n as int, lo as int);
    }
    lo
}

} // verus!
