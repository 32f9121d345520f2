//! Fixed-point vectors and axis-aligned boxes.
use vstd::prelude::*;

verus! {

/// Milli-pixels per pixel.
pub const SUB: i64 = 1000;

/// Milliseconds per second.
pub const MS: i64 = 1000;

/// Magnitude bound on every coordinate and extent the library works with.
pub const COORD_MAX: i64 = 0x1_0000_0000;

/// Magnitude bound under which sums of coordinates cannot overflow.
pub const FIT_MAX: i64 = 0x10_0000_0000_0000;

/// Division that rounds toward zero, as Rust's integer `/` does.
pub open spec fn tdiv(a: int, b: int) -> int {
    if a >= 0 {
        a / b
    } else {
        -((-a) / b)
    }
}

pub open spec fn abs(a: int) -> int {
    if a >= 0 {
        a
    } else {
        -a
    }
}

/// Rounds toward zero.
pub fn div_trunc(a: i64, b: i64) -> (r: i64)
    requires
        b > 0,
        a > i64::MIN,
    ensures
        r == tdiv(a as int, b as int),
{
    if a >= 0 {
        a / b
    } else {
        -((-a) / b)
    }
}

/// Largest integer not above `a / b`.
pub fn div_floor(a: i64, b: i64) -> (r: i64)
    requires
        b > 0,
        a > i64::MIN,
    ensures
        r == a as int / b as int,
{
    if a >= 0 {
        a / b
    } else {
        let q = (-(a + 1)) / b;
        proof {
            let aa = a as int;
            let bb = b as int;
            let qq = q as int;
            vstd::arithmetic::div_mod::lemma_fundamental_div_mod(-aa - 1, bb);
            let r1 = (-aa - 1) % bb;
            assert(0 <= qq);
            assert(-aa - 1 == bb * qq + r1);
            assert(aa == (-(qq + 1)) * bb + (bb - 1 - r1)) by (nonlinear_arith)
                requires
                    -aa - 1 == bb * qq + r1,
            ;
            vstd::arithmetic::div_mod::lemma_fundamental_div_mod_converse_div(
                aa,
                bb,
                -(qq + 1),
                bb - 1 - r1,
            );
        }
        -(q + 1)
    }
}

proof fn lemma_div_magnitude(x: int, b: int)
    requires
        b >= 1,
    ensures
        -abs(x) <= x / b <= abs(x),
{
    vstd::arithmetic::div_mod::lemma_fundamental_div_mod(x, b);
    let q = x / b;
    let m = x % b;
    assert(-abs(x) <= q <= abs(x)) by (nonlinear_arith)
        requires
            x == b * q + m,
            0 <= m < b,
            b >= 1,
            abs(x) == (if x >= 0 { x } else { -x }),
    ;
}

/// Smallest integer not below `a / b`.
pub fn div_ceil(a: i64, b: i64) -> (r: i64)
    requires
        b > 0,
        a > i64::MIN,
    ensures
        r == -((-(a as int)) / b as int),
{
    let f = div_floor(-a, b);
    proof {
        lemma_div_magnitude(-a as int, b as int);
    }
    -f
}

/// `r` is the integer square root of `n`.
pub open spec fn is_isqrt(n: int, r: int) -> bool {
    0 <= r && r * r <= n < (r + 1) * (r + 1)
}

/// Largest bound on the argument of `isqrt`.
pub const ISQRT_MAX: u128 = 0x1_0000_0000_0000_0000_0000_0000;

/// The integer square root, by bisection.
pub fn isqrt(n: u128) -> (r: u128)
    requires
        n <= ISQRT_MAX,
    ensures
        is_isqrt(n as int, r as int),
{
    let mut lo: u128 = 0;
    let mut hi: u128 = 0x1_0000_0000_0001;
    assert(hi * hi > ISQRT_MAX) by (nonlinear_arith)
        requires
            hi == 0x1_0000_0000_0001u128,
    ;
    while hi - lo > 1
        invariant
            lo < hi <= 0x1_0000_0000_0001,
            lo * lo <= n,
            n < hi * hi,
        decreases hi - lo,
    {
        let mid = lo + (hi - lo) / 2;
        assert(mid * mid <= 0x1_0000_0000_0001u128 * 0x1_0000_0000_0001u128) by (nonlinear_arith)
            requires
                mid <= 0x1_0000_0000_0001u128,
        ;
        if mid * mid <= n {
            lo = mid;
        } else {
            hi = mid;
        }
    }
    lo
}

/// A point or a displacement.
#[derive(Clone, Copy, Debug, PartialEq, Eq, Structural)]
pub struct Vec2 {
    pub x: i64,
    pub y: i64,
}

impl Vec2 {
    pub open spec fn bounded(self) -> bool {
        -COORD_MAX <= self.x <= COORD_MAX && -COORD_MAX <= self.y <= COORD_MAX
    }

    pub fn new(x: i64, y: i64) -> (r: Vec2)
        ensures
            r == (Vec2 { x, y }),
    {
        Vec2 { x, y }
    }
}

/// An axis-aligned box: `x`, `y` is its top-left corner.
#[derive(Clone, Copy, Debug, PartialEq, Eq, Structural)]
pub struct Rect {
    pub x: i64,
    pub y: i64,
    pub width: i64,
    pub height: i64,
}

/// Two boxes share interior area: touching edges do not count.
pub open spec fn overlap(a: Rect, b: Rect) -> bool {
    &&& a.x < b.x + b.width
    &&& a.x + a.width > b.x
    &&& a.y < b.y + b.height
    &&& a.y + a.height > b.y
}

impl Rect {
    /// Extents are non-negative and every edge is within the coordinate bound.
    pub open spec fn wf(self) -> bool {
        &&& 0 <= self.width <= COORD_MAX
        &&& 0 <= self.height <= COORD_MAX
        &&& -COORD_MAX <= self.x <= COORD_MAX
        &&& -COORD_MAX <= self.y <= COORD_MAX
    }

    pub fn new(x: i64, y: i64, width: i64, height: i64) -> (r: Rect)
        ensures
            r == (Rect { x, y, width, height }),
    {
        Rect { x, y, width, height }
    }

    /// Looser than `wf`: every edge sum stays far inside `i64`.
    pub open spec fn fits(self) -> bool {
        &&& 0 <= self.width <= FIT_MAX
        &&& 0 <= self.height <= FIT_MAX
        &&& -FIT_MAX <= self.x <= FIT_MAX
        &&& -FIT_MAX <= self.y <= FIT_MAX
    }

    pub fn check_collision(&self, other: &Rect) -> (r: bool)
        requires
            self.fits(),
            other.fits(),
        ensures
            r == overlap(*self, *other),
    {
        self.x < other.x + other.width && self.x + self.width > other.x && self.y < other.y
            + other.height && self.y + self.height > other.y
    }
}

} // verus!
