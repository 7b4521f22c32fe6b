//! Points, headings and straight-line motion over whole numbers.
//!
//! A coordinate counts thousandths of a world unit. A heading is a unit vector
//! whose components count thousandths as well. A speed is in world units per
//! second and a time in milliseconds, so speed times time is a length in
//! thousandths of a unit.

use vstd::prelude::*;

verus! {

/// Thousandths in a whole: of a world unit, of a unit vector's length.
pub const SCALE: i32 = 1000;

/// A point or an extent in the plane.
#[derive(Clone, Copy, Debug, PartialEq, Eq, Structural)]
pub struct Vec2 {
    pub x: i32,
    pub y: i32,
}

/// A direction of travel: a unit vector in thousandths.
#[derive(Clone, Copy, Debug, PartialEq, Eq, Structural)]
pub struct Heading {
    pub x: i32,
    pub y: i32,
}

/// Division that rounds toward zero, for a positive divisor.
pub open spec fn div_toward_zero(a: int, b: int) -> int
    recommends
        b > 0,
{
    if a >= 0 {
        a / b
    } else {
        -((-a) / b)
    }
}

/// The nearest coordinate that can be held: `v` itself where it fits.
pub open spec fn saturate(v: int) -> int {
    if v < i32::MIN {
        i32::MIN as int
    } else if v > i32::MAX {
        i32::MAX as int
    } else {
        v
    }
}

/// How far something moves along one axis in `dt_ms` milliseconds at `speed`
/// units per second, when `part` thousandths of its motion go along that axis.
pub open spec fn travel(speed: int, dt_ms: int, part: int) -> int {
    div_toward_zero(speed * dt_ms * part, SCALE as int)
}

/// Where a point at `pos` stands after moving along `heading`.
pub open spec fn moved(pos: Vec2, heading: Heading, speed: u32, dt_ms: u64) -> Vec2 {
    Vec2 {
        x: saturate(pos.x + travel(speed as int, dt_ms as int, heading.x as int)) as i32,
        y: saturate(pos.y + travel(speed as int, dt_ms as int, heading.y as int)) as i32,
    }
}

/// `v` held between `lo` and `hi`.
pub open spec fn clamped(v: int, lo: int, hi: int) -> int
    recommends
        lo <= hi,
{
    if v < lo {
        lo
    } else if v > hi {
        hi
    } else {
        v
    }
}

/// The square of the distance between two points.
pub open spec fn distance_squared(a: Vec2, b: Vec2) -> int {
    (a.x - b.x) * (a.x - b.x) + (a.y - b.y) * (a.y - b.y)
}

proof fn lemma_product_bound(a: int, b: int, c: int)
    requires
        0 <= a <= u32::MAX,
        0 <= b <= u64::MAX,
        i32::MIN <= c <= i32::MAX,
    ensures
        0 <= a * b <= 0xffff_ffff * 0xffff_ffff_ffff_ffff,
        -(0xffff_ffff * 0xffff_ffff_ffff_ffff * 0x8000_0000) <= a * b * c <= 0xffff_ffff
            * 0xffff_ffff_ffff_ffff * 0x8000_0000,
{
    assert(0 <= a * b <= 0xffff_ffff * 0xffff_ffff_ffff_ffff) by (nonlinear_arith)
        requires
            0 <= a <= 0xffff_ffff,
            0 <= b <= 0xffff_ffff_ffff_ffff,
    ;
    let ab = a * b;
    let m = 0xffff_ffff * 0xffff_ffff_ffff_ffff;
    assert(-(m * 0x8000_0000) <= ab * c <= m * 0x8000_0000) by (nonlinear_arith)
        requires
            0 <= ab <= m,
            -0x8000_0000 <= c <= 0x8000_0000,
    ;
}

/// Brings a wide number back into a coordinate.
pub fn saturate_coord(v: i128) -> (r: i32)
    ensures
        r == saturate(v as int),
{
    if v < i32::MIN as i128 {
        i32::MIN
    } else if v > i32::MAX as i128 {
        i32::MAX
    } else {
        v as i32
    }
}

/// The length travelled along one axis.
pub fn travel_along(speed: u32, dt_ms: u64, part: i32) -> (d: i128)
    ensures
        d == travel(speed as int, dt_ms as int, part as int),
        -0x4000_0000_0000_0000_0000_0000_0000_0000 <= d <= 0x4000_0000_0000_0000_0000_0000_0000_0000,
{
    proof {
        lemma_product_bound(speed as int, dt_ms as int, part as int);
    }
    let whole: i128 = (speed as i128) * (dt_ms as i128) * (part as i128);
    whole / (SCALE as i128)
}

impl Vec2 {
    pub fn new(x: i32, y: i32) -> (v: Vec2)
        ensures
            v == (Vec2 { x, y }),
    {
        Vec2 { x, y }
    }

    /// The point reached from `self` by moving along `heading` at `speed`
    /// units per second for `dt_ms` milliseconds. A coordinate that would
    /// leave the range that can be held stays at its edge.
    pub fn advance(self, heading: Heading, speed: u32, dt_ms: u64) -> (p: Vec2)
        ensures
            p == moved(self, heading, speed, dt_ms),
    {
        let dx: i128 = travel_along(speed, dt_ms, heading.x);
        let dy: i128 = travel_along(speed, dt_ms, heading.y);
        Vec2 { x: saturate_coord(self.x as i128 + dx), y: saturate_coord(self.y as i128 + dy) }
    }

    /// Whether `self` lies farther than `range` from `origin`.
    pub fn farther_than(self, origin: Vec2, range: u32) -> (far: bool)
        ensures
            far == (distance_squared(self, origin) > range * range),
    {
        let dx: i128 = self.x as i128 - origin.x as i128;
        let dy: i128 = self.y as i128 - origin.y as i128;
        let r: i128 = range as i128;
        assert(dx * dx <= 0x1_0000_0000 * 0x1_0000_0000) by (nonlinear_arith)
            requires
                -0x1_0000_0000 <= dx <= 0x1_0000_0000,
        ;
        assert(dy * dy <= 0x1_0000_0000 * 0x1_0000_0000) by (nonlinear_arith)
            requires
                -0x1_0000_0000 <= dy <= 0x1_0000_0000,
        ;
        assert(0 <= r * r <= 0x1_0000_0000 * 0x1_0000_0000) by (nonlinear_arith)
            requires
                0 <= r <= 0x1_0000_0000,
        ;
        assert(dx * dx >= 0 && dy * dy >= 0) by (nonlinear_arith);
        dx * dx + dy * dy > r * r
    }
}

impl Heading {
    pub fn new(x: i32, y: i32) -> (h: Heading)
        ensures
            h == (Heading { x, y }),
    {
        Heading { x, y }
    }
}

/// Whether `r` is the whole part of the square root of `n`.
pub open spec fn is_root(r: int, n: int) -> bool {
    r >= 0 && r * r <= n < (r + 1) * (r + 1)
}

/// The whole part of the square root of `n`.
pub open spec fn root(n: int) -> int {
    choose|r: int| is_root(r, n)
}

/// A number has at most one whole root.
pub proof fn lemma_root_unique(a: int, b: int, n: int)
    requires
        is_root(a, n),
        is_root(b, n),
    ensures
        a == b,
{
    if a < b {
        assert((a + 1) * (a + 1) <= b * b) by (nonlinear_arith)
            requires
                0 <= a,
                a + 1 <= b,
        ;
    } else if b < a {
        assert((b + 1) * (b + 1) <= a * a) by (nonlinear_arith)
            requires
                0 <= b,
                b + 1 <= a,
        ;
    }
}

/// The whole part of the square root of `n`.
pub fn whole_root(n: u128) -> (r: u64)
    ensures
        is_root(r as int, n as int),
        r == root(n as int),
{
    let mut lo: u128 = 0;
    let mut hi: u128 = 0x1_0000_0000_0000_0000;
    assert(0x1_0000_0000_0000_0000 * 0x1_0000_0000_0000_0000 > u128::MAX) by (nonlinear_arith);
    while hi - lo > 1
        invariant
            0 <= lo < hi <= 0x1_0000_0000_0000_0000,
            lo * lo <= n,
            n < hi * hi,
        decreases hi - lo,
    {
        let mid: u128 = lo + (hi - lo) / 2;
        assert(mid * mid <= 0xffff_ffff_ffff_ffff * 0xffff_ffff_ffff_ffff) by (nonlinear_arith)
            requires
                0 <= mid <= 0xffff_ffff_ffff_ffff,
        ;
        if mid * mid <= n {
            lo = mid;
        } else {
            hi = mid;
        }
    }
    proof {
        assert(is_root(lo as int, n as int));
        let r = root(n as int);
        lemma_root_unique(lo as int, r, n as int);
    }
    lo as u64
}

/// The heading from `from` toward `to`, for two places that differ: the
/// way between them, brought to the length of one, each part rounded toward
/// nothing. The length of the way is taken as the whole part of the true one.
pub open spec fn heading_toward(from: Vec2, to: Vec2) -> Heading {
    let dx = to.x - from.x;
    let dy = to.y - from.y;
    let len = root(dx * dx + dy * dy);
    Heading {
        x: div_toward_zero(dx * SCALE, len) as i32,
        y: div_toward_zero(dy * SCALE, len) as i32,
    }
}

proof fn lemma_part_bound(d: int, other: int, len: int)
    requires
        is_root(len, d * d + other * other),
        d != 0 || other != 0,
    ensures
        len >= 1,
        -len <= d <= len,
        -1000 <= div_toward_zero(d * 1000, len) <= 1000,
        d > 0 ==> div_toward_zero(d * 1000, len) >= 0,
        d < 0 ==> div_toward_zero(d * 1000, len) <= 0,
        d == 0 ==> div_toward_zero(d * 1000, len) == 0,
{
    let n = d * d + other * other;
    assert(n >= 1 && d * d <= n) by (nonlinear_arith)
        requires
            n == d * d + other * other,
            d != 0 || other != 0,
    ;
    assert(len >= 1) by (nonlinear_arith)
        requires
            len >= 0,
            n < (len + 1) * (len + 1),
            n >= 1,
    ;
    assert(-len <= d <= len) by (nonlinear_arith)
        requires
            len >= 0,
            d * d <= n,
            n < (len + 1) * (len + 1),
    ;
    let a = if d >= 0 {
        d * 1000
    } else {
        -(d * 1000)
    };
    assert(0 <= a <= 1000 * len);
    assert(0 <= a / len <= 1000) by (nonlinear_arith)
        requires
            0 <= a <= 1000 * len,
            len >= 1,
    ;
}

impl Heading {
    /// The heading along the x axis, which is what an angle of nothing means.
    pub open spec fn spec_ahead() -> Heading {
        Heading { x: SCALE, y: 0 }
    }

    /// The heading along the x axis.
    pub fn ahead() -> (h: Heading)
        ensures
            h == Heading::spec_ahead(),
    {
        Heading { x: SCALE, y: 0 }
    }

    /// The heading from `from` toward `to`, or nothing where the two are
    /// one place. No part of a heading is longer than one.
    pub fn toward(from: Vec2, to: Vec2) -> (h: Option<Heading>)
        ensures
            h is None <==> from == to,
            h is Some ==> h->0 == heading_toward(from, to),
            h is Some ==> -SCALE <= h->0.x <= SCALE && -SCALE <= h->0.y <= SCALE,
            h is Some ==> (to.x > from.x ==> h->0.x >= 0) && (to.x < from.x ==> h->0.x <= 0) && (to.x
                == from.x ==> h->0.x == 0),
            h is Some ==> (to.y > from.y ==> h->0.y >= 0) && (to.y < from.y ==> h->0.y <= 0) && (to.y
                == from.y ==> h->0.y == 0),
    {
        let dx: i128 = to.x as i128 - from.x as i128;
        let dy: i128 = to.y as i128 - from.y as i128;
        if dx == 0 && dy == 0 {
            return None;
        }
        assert(0 <= dx * dx <= 0x1_0000_0000 * 0x1_0000_0000) by (nonlinear_arith)
            requires
                -0x1_0000_0000 <= dx <= 0x1_0000_0000,
        ;
        assert(0 <= dy * dy <= 0x1_0000_0000 * 0x1_0000_0000) by (nonlinear_arith)
            requires
                -0x1_0000_0000 <= dy <= 0x1_0000_0000,
        ;
        let n: u128 = (dx * dx + dy * dy) as u128;
        let len: i128 = whole_root(n) as i128;
        proof {
            lemma_part_bound(dx as int, dy as int, len as int);
            assert(dy * dy + dx * dx == dx * dx + dy * dy);
            lemma_part_bound(dy as int, dx as int, len as int);
        }
        let x: i128 = (dx * 1000) / len;
        let y: i128 = (dy * 1000) / len;
        Some(Heading { x: x as i32, y: y as i32 })
    }
}

} // verus!
